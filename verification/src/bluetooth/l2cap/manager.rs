//! The L2CAP manager: the dynamic and fixed channels of all connections,
//! the signaling that opens, configures and closes them, and the frames it
//! sends, which it queues as serialized ACL packets for the controller.
use vstd::prelude::*;
use super::{header_bytes, signal_bytes, L2capChannel, L2capChannelView, L2capSignal, L2capPacket, L2capState, L2capSigCode, L2capConnResult, L2capConfResult, L2CAP_CID_LE_SIGNALING, L2CAP_CID_SIGNALING, L2CAP_CID_DYN_START, L2CAP_CID_ATT, L2CAP_CID_SMP, L2CAP_CID_CONNLESS, L2CAP_DEFAULT_MTU, new_channel_view, frame_fits, signal_fits, L2capConfig};
use crate::bluetooth::BluetoothError;
use crate::bluetooth::hci::{acl_bytes, AclPacket, AclPacketBoundary, acl_fields, acl_fits};
use crate::wire::{le16, le32, le64, from_le16, make_u16, push_u16_le, push_u32_le, push_u64_le};

verus! {

/// What the manager holds.
pub struct L2capManagerView {
    /// Dynamic channels, by ascending local CID
    pub channels: Seq<L2capChannelView>,
    /// Fixed channels, each by connection handle and CID
    pub fixed_channels: Seq<L2capChannelView>,
    pub next_cid: u16,
    pub next_sig_id: u8,
    /// PSMs that accept incoming connections
    pub psms: Seq<u16>,
    pub extended_features: u32,
    pub fixed_channels_mask: u32,
    /// Partial frames by connection handle
    pub segments: Seq<(u16, Seq<u8>)>,
    /// Serialized ACL packets sent, oldest first
    pub outbox: Seq<Seq<u8>>,
}

/// L2CAP manager
pub struct L2capManager {
    channels: Vec<L2capChannel>,
    fixed_channels: Vec<L2capChannel>,
    next_cid: u16,
    next_sig_id: u8,
    psms: Vec<u16>,
    /// Extended features
    pub extended_features: u32,
    /// Fixed channels mask
    pub fixed_channels_mask: u32,
    segment_buffers: Vec<(u16, Vec<u8>)>,
    outbox: Vec<Vec<u8>>,
}

impl View for L2capManager {
    type V = L2capManagerView;

    closed spec fn view(&self) -> L2capManagerView {
        L2capManagerView {
            channels: self.channels@.map_values(|c: L2capChannel| c@),
            fixed_channels: self.fixed_channels@.map_values(|c: L2capChannel| c@),
            next_cid: self.next_cid,
            next_sig_id: self.next_sig_id,
            psms: self.psms@,
            extended_features: self.extended_features,
            fixed_channels_mask: self.fixed_channels_mask,
            segments: self.segment_buffers@.map_values(|e: (u16, Vec<u8>)| (e.0, e.1@)),
            outbox: self.outbox@.map_values(|b: Vec<u8>| b@),
        }
    }
}

/// The local CIDs of the channels rise strictly.
pub open spec fn cids_sorted(s: Seq<L2capChannelView>) -> bool {
    forall|i: int, j: int| 0 <= i < j < s.len() ==> #[trigger] s[i].local_cid < #[trigger] s[j].local_cid
}

/// The manager's invariant.
pub open spec fn manager_wf(v: L2capManagerView) -> bool {
    cids_sorted(v.channels)
}

/// Index of the channel with local CID `cid`, or -1.
pub open spec fn find_cid(s: Seq<L2capChannelView>, cid: u16) -> int
    decreases s.len(),
{
    if s.len() == 0 {
        -1
    } else if s.last().local_cid == cid {
        s.len() - 1
    } else {
        find_cid(s.drop_last(), cid)
    }
}

/// Index of the first channel whose local CID is not below `cid`.
pub open spec fn lower_bound(s: Seq<L2capChannelView>, cid: u16) -> int
    decreases s.len(),
{
    if s.len() == 0 || s.last().local_cid < cid {
        s.len() as int
    } else {
        lower_bound(s.drop_last(), cid)
    }
}

/// The channels with `ch` put in under its CID, replacing a channel with
/// the same CID.
pub open spec fn insert_channel(s: Seq<L2capChannelView>, ch: L2capChannelView) -> Seq<L2capChannelView> {
    let i = find_cid(s, ch.local_cid);
    if i >= 0 { s.update(i, ch) } else { s.insert(lower_bound(s, ch.local_cid), ch) }
}

/// The channels without the one with CID `cid`.
pub open spec fn remove_cid(s: Seq<L2capChannelView>, cid: u16) -> Seq<L2capChannelView> {
    let i = find_cid(s, cid);
    if i >= 0 { s.remove(i) } else { s }
}

/// The channels with the one at `i` changed to `ch`, if `i` is an index.
pub open spec fn update_at(s: Seq<L2capChannelView>, i: int, ch: L2capChannelView) -> Seq<L2capChannelView> {
    if 0 <= i < s.len() { s.update(i, ch) } else { s }
}

/// Index of the fixed channel for connection `handle` and CID `cid`, or -1.
pub open spec fn find_fixed(s: Seq<L2capChannelView>, handle: u16, cid: u16) -> int
    decreases s.len(),
{
    if s.len() == 0 {
        -1
    } else if s.last().handle == handle && s.last().local_cid == cid {
        s.len() - 1
    } else {
        find_fixed(s.drop_last(), handle, cid)
    }
}

/// Index of the partial frame of connection `handle`, or -1.
pub open spec fn find_segment(s: Seq<(u16, Seq<u8>)>, handle: u16) -> int
    decreases s.len(),
{
    if s.len() == 0 {
        -1
    } else if s.last().0 == handle {
        s.len() - 1
    } else {
        find_segment(s.drop_last(), handle)
    }
}

/// The serialized ACL packet that carries `payload` on channel `cid` of
/// connection `handle`.
pub open spec fn acl_frame(handle: u16, cid: u16, payload: Seq<u8>) -> Seq<u8> {
    acl_bytes(
        handle,
        AclPacketBoundary::FirstAutoFlush.code(),
        0,
        header_bytes((payload.len() % 65536) as u16, cid) + payload,
    )
}

/// The serialized ACL packet of a signaling command, on the LE signaling
/// channel when `le`, else on the BR/EDR one.
pub open spec fn signal_frame(handle: u16, le: bool, code: u8, id: u8, data: Seq<u8>) -> Seq<u8> {
    acl_frame(handle, if le { L2CAP_CID_LE_SIGNALING } else { L2CAP_CID_SIGNALING }, signal_bytes(code, id, data))
}

/// The manager with one more packet sent.
pub open spec fn sent(v: L2capManagerView, frame: Seq<u8>) -> L2capManagerView {
    L2capManagerView { outbox: v.outbox.push(frame), ..v }
}

/// The signal identifier handed out next, and the one after it: identifiers
/// wrap from 255 to 1, skipping 0.
pub open spec fn sig_id_of(next: u8) -> u8 {
    if next == 0 { 1 } else { next }
}

/// The identifier counter after handing one out.
pub open spec fn next_sig_after(next: u8) -> u8 {
    if next == 0 { 1 } else { next.wrapping_add(1) }
}

proof fn lemma_find_cid(s: Seq<L2capChannelView>, cid: u16)
    ensures
        -1 <= find_cid(s, cid) < s.len(),
        find_cid(s, cid) >= 0 ==> s[find_cid(s, cid)].local_cid == cid,
        find_cid(s, cid) < 0 ==> forall|k: int| 0 <= k < s.len() ==> #[trigger] s[k].local_cid != cid,
    decreases s.len(),
{
    if s.len() > 0 && s.last().local_cid != cid {
        lemma_find_cid(s.drop_last(), cid);
        assert forall|k: int| 0 <= k < s.len() - 1 implies #[trigger] s[k].local_cid == s.drop_last()[k].local_cid by {}
    }
}

pub proof fn lemma_find_fixed(s: Seq<L2capChannelView>, handle: u16, cid: u16)
    ensures
        -1 <= find_fixed(s, handle, cid) < s.len(),
        find_fixed(s, handle, cid) >= 0 ==> s[find_fixed(s, handle, cid)].handle == handle
            && s[find_fixed(s, handle, cid)].local_cid == cid,
    decreases s.len(),
{
    if s.len() > 0 && !(s.last().handle == handle && s.last().local_cid == cid) {
        lemma_find_fixed(s.drop_last(), handle, cid);
    }
}

proof fn lemma_find_segment(s: Seq<(u16, Seq<u8>)>, handle: u16)
    ensures
        -1 <= find_segment(s, handle) < s.len(),
        find_segment(s, handle) >= 0 ==> s[find_segment(s, handle)].0 == handle,
    decreases s.len(),
{
    if s.len() > 0 && s.last().0 != handle {
        lemma_find_segment(s.drop_last(), handle);
    }
}

proof fn lemma_lower_bound(s: Seq<L2capChannelView>, cid: u16)
    requires
        cids_sorted(s),
    ensures
        0 <= lower_bound(s, cid) <= s.len(),
        forall|k: int| 0 <= k < lower_bound(s, cid) ==> #[trigger] s[k].local_cid < cid,
        forall|k: int| lower_bound(s, cid) <= k < s.len() ==> #[trigger] s[k].local_cid >= cid,
    decreases s.len(),
{
    if s.len() > 0 && s.last().local_cid >= cid {
        assert(cids_sorted(s.drop_last()));
        lemma_lower_bound(s.drop_last(), cid);
        assert forall|k: int| 0 <= k < lower_bound(s, cid) implies #[trigger] s[k].local_cid < cid by {
            assert(s[k].local_cid == s.drop_last()[k].local_cid);
        }
        assert forall|k: int| lower_bound(s, cid) <= k < s.len() implies #[trigger] s[k].local_cid >= cid by {
            if k < s.len() - 1 {
                assert(s[k].local_cid == s.drop_last()[k].local_cid);
            }
        }
    } else if s.len() > 0 {
        assert forall|k: int| 0 <= k < s.len() implies #[trigger] s[k].local_cid < cid by {
            if k < s.len() - 1 {
                assert(s[k].local_cid < s.last().local_cid);
            }
        }
    }
}

/// Putting a channel in keeps the CIDs sorted.
proof fn lemma_insert_sorted(s: Seq<L2capChannelView>, ch: L2capChannelView)
    requires
        cids_sorted(s),
    ensures
        cids_sorted(insert_channel(s, ch)),
        find_cid(insert_channel(s, ch), ch.local_cid) >= 0,
{
    lemma_find_cid(s, ch.local_cid);
    lemma_lower_bound(s, ch.local_cid);
    let r = insert_channel(s, ch);
    if find_cid(s, ch.local_cid) < 0 {
        let p = lower_bound(s, ch.local_cid);
        assert forall|i: int, j: int| 0 <= i < j < r.len() implies #[trigger] r[i].local_cid < #[trigger] r[j].local_cid by {
            if j < p {
            } else if j == p {
            } else if i < p {
                assert(r[j] == s[j - 1]);
            } else if i == p {
                assert(r[j] == s[j - 1]);
                assert(s[j - 1].local_cid != ch.local_cid);
            } else {
                assert(r[i] == s[i - 1] && r[j] == s[j - 1]);
            }
        }
        assert(r[p].local_cid == ch.local_cid);
    } else {
        assert(r[find_cid(s, ch.local_cid)].local_cid == ch.local_cid);
    }
    lemma_find_cid(r, ch.local_cid);
    if find_cid(r, ch.local_cid) < 0 {
        if find_cid(s, ch.local_cid) < 0 {
            assert(r[lower_bound(s, ch.local_cid)].local_cid == ch.local_cid);
        } else {
            assert(r[find_cid(s, ch.local_cid)].local_cid == ch.local_cid);
        }
    }
}

/// A channel put in under its CID is the one found under that CID.
pub proof fn lemma_insert_then_find(s: Seq<L2capChannelView>, ch: L2capChannelView)
    requires
        cids_sorted(s),
    ensures
        find_cid(insert_channel(s, ch), ch.local_cid) >= 0,
        insert_channel(s, ch)[find_cid(insert_channel(s, ch), ch.local_cid)] == ch,
{
    lemma_insert_sorted(s, ch);
    lemma_find_cid(s, ch.local_cid);
    lemma_lower_bound(s, ch.local_cid);
    let r = insert_channel(s, ch);
    lemma_find_cid(r, ch.local_cid);
    let p = if find_cid(s, ch.local_cid) >= 0 { find_cid(s, ch.local_cid) } else { lower_bound(s, ch.local_cid) };
    assert(r[p] == ch);
    let f = find_cid(r, ch.local_cid);
    if f != p {
        if f < p {
            assert(r[f].local_cid < r[p].local_cid);
        } else {
            assert(r[p].local_cid < r[f].local_cid);
        }
    }
}

/// Taking a channel out keeps the CIDs sorted.
proof fn lemma_remove_sorted(s: Seq<L2capChannelView>, cid: u16)
    requires
        cids_sorted(s),
    ensures
        cids_sorted(remove_cid(s, cid)),
{
    lemma_find_cid(s, cid);
    let i = find_cid(s, cid);
    if i >= 0 {
        let r = s.remove(i);
        assert forall|a: int, b: int| 0 <= a < b < r.len() implies #[trigger] r[a].local_cid < #[trigger] r[b].local_cid by {
            let a2 = if a < i { a } else { a + 1 };
            let b2 = if b < i { b } else { b + 1 };
            assert(r[a] == s[a2] && r[b] == s[b2]);
        }
    }
}

/// Changing a channel but not its CID keeps the CIDs sorted.
proof fn lemma_update_sorted(s: Seq<L2capChannelView>, i: int, ch: L2capChannelView)
    requires
        cids_sorted(s),
        0 <= i < s.len() ==> ch.local_cid == s[i].local_cid,
    ensures
        cids_sorted(update_at(s, i, ch)),
{
    let r = update_at(s, i, ch);
    assert forall|a: int, b: int| 0 <= a < b < r.len() implies #[trigger] r[a].local_cid < #[trigger] r[b].local_cid by {
        assert(r[a].local_cid == s[a].local_cid && r[b].local_cid == s[b].local_cid);
    }
}

impl L2capManager {
    /// A manager without channels; dynamic CIDs start at 0x0040 and signal
    /// identifiers at 1, and the signaling and connectionless channels are
    /// the fixed channels it offers.
    pub fn new() -> (r: Self)
        ensures
            r@ == (L2capManagerView {
                channels: Seq::empty(),
                fixed_channels: Seq::empty(),
                next_cid: L2CAP_CID_DYN_START,
                next_sig_id: 1,
                psms: Seq::empty(),
                extended_features: 0,
                fixed_channels_mask: 6,
                segments: Seq::empty(),
                outbox: Seq::empty(),
            }),
            manager_wf(r@),
    {
        let r = L2capManager {
            channels: Vec::new(),
            fixed_channels: Vec::new(),
            next_cid: L2CAP_CID_DYN_START,
            next_sig_id: 1,
            psms: Vec::new(),
            extended_features: 0,
            fixed_channels_mask: (1u32 << L2CAP_CID_SIGNALING) | (1u32 << L2CAP_CID_CONNLESS),
            segment_buffers: Vec::new(),
            outbox: Vec::new(),
        };
        assert((1u32 << 1u16) | (1u32 << 2u16) == 6) by (bit_vector);
        assert(r@.channels =~= Seq::<L2capChannelView>::empty());
        assert(r@.fixed_channels =~= Seq::<L2capChannelView>::empty());
        assert(r@.segments =~= Seq::<(u16, Seq<u8>)>::empty());
        assert(r@.outbox =~= Seq::<Seq<u8>>::empty());
        r
    }

    /// Allocate local CID
    fn alloc_cid(&mut self) -> (r: u16)
        ensures
            r == old(self)@.next_cid,
            final(self)@ == (L2capManagerView { next_cid: old(self)@.next_cid.wrapping_add(1), ..old(self)@ }),
    {
        let cid = self.next_cid;
        self.next_cid = self.next_cid.wrapping_add(1);
        cid
    }

    /// Allocate signal identifier
    fn alloc_sig_id(&mut self) -> (r: u8)
        ensures
            r == sig_id_of(old(self)@.next_sig_id),
            r != 0,
            final(self)@ == (L2capManagerView { next_sig_id: next_sig_after(old(self)@.next_sig_id), ..old(self)@ }),
    {
        let id = self.next_sig_id;
        self.next_sig_id = self.next_sig_id.wrapping_add(1);
        if id == 0 {
            self.next_sig_id = 1;
            1
        } else {
            id
        }
    }

    /// Accept incoming connections to `psm` from now on.
    pub fn register_psm(&mut self, psm: u16)
        ensures
            final(self)@ == (L2capManagerView {
                psms: if old(self)@.psms.contains(psm) { old(self)@.psms } else { old(self)@.psms.push(psm) },
                ..old(self)@
            }),
    {
        let mut i: usize = 0;
        while i < self.psms.len()
            invariant
                i <= self.psms@.len(),
                self@ == old(self)@,
                forall|k: int| 0 <= k < i ==> self.psms@[k] != psm,
            decreases self.psms@.len() - i,
        {
            if self.psms[i] == psm {
                return;
            }
            i = i + 1;
        }
        self.psms.push(psm);
    }

    /// Whether incoming connections to `psm` are accepted.
    fn psm_registered(&self, psm: u16) -> (r: bool)
        ensures
            r == self@.psms.contains(psm),
    {
        let mut i: usize = 0;
        while i < self.psms.len()
            invariant
                i <= self.psms@.len(),
                forall|k: int| 0 <= k < i ==> self.psms@[k] != psm,
            decreases self.psms@.len() - i,
        {
            if self.psms[i] == psm {
                return true;
            }
            i = i + 1;
        }
        false
    }

    /// Index of the channel with local CID `cid`.
    fn find_channel(&self, cid: u16) -> (r: Option<usize>)
        ensures
            match r {
                Some(i) => i == find_cid(self@.channels, cid) && i < self@.channels.len(),
                None => find_cid(self@.channels, cid) < 0,
            },
    {
        proof {
            lemma_find_cid(self@.channels, cid);
        }
        let mut i: usize = self.channels.len();
        assert(self@.channels.take(i as int) =~= self@.channels);
        while i > 0
            invariant
                i <= self.channels@.len(),
                self@.channels.len() == self.channels@.len(),
                find_cid(self@.channels, cid) == find_cid(self@.channels.take(i as int), cid),
            decreases i,
        {
            assert(self@.channels.take(i as int).drop_last() =~= self@.channels.take(i - 1));
            if self.channels[i - 1].local_cid == cid {
                return Some(i - 1);
            }
            i = i - 1;
        }
        None
    }

    /// Put a channel in under its CID, replacing one with the same CID.
    fn put_channel(&mut self, ch: L2capChannel)
        requires
            manager_wf(old(self)@),
        ensures
            final(self)@ == (L2capManagerView { channels: insert_channel(old(self)@.channels, ch@), ..old(self)@ }),
            manager_wf(final(self)@),
    {
        proof {
            lemma_insert_sorted(self@.channels, ch@);
            lemma_lower_bound(self@.channels, ch@.local_cid);
        }
        let ghost cv = ch@;
        match self.find_channel(ch.local_cid) {
            Some(i) => {
                let _ = self.channels.remove(i);
                self.channels.insert(i, ch);
                assert(self@.channels =~= old(self)@.channels.update(i as int, cv));
            },
            None => {
                let mut p: usize = self.channels.len();
                while p > 0 && self.channels[p - 1].local_cid >= ch.local_cid
                    invariant
                        p <= self.channels@.len(),
                        self@ == old(self)@,
                        manager_wf(self@),
                        lower_bound(self@.channels, ch@.local_cid) <= p,
                        forall|k: int| p <= k < self@.channels.len() ==> #[trigger] self@.channels[k].local_cid >= ch@.local_cid,
                    decreases p,
                {
                    proof {
                        lemma_lower_bound(self@.channels, ch@.local_cid);
                        assert(self@.channels[p - 1].local_cid >= ch@.local_cid);
                    }
                    p = p - 1;
                }
                proof {
                    lemma_lower_bound(self@.channels, ch@.local_cid);
                    if p > 0 {
                        assert(self@.channels[p - 1].local_cid < ch@.local_cid);
                    }
                }
                assert(p == lower_bound(self@.channels, ch@.local_cid));
                self.channels.insert(p, ch);
                assert(self@.channels =~= old(self)@.channels.insert(p as int, cv));
            },
        }
    }

    /// Create channel: a new, closed channel under the next CID.
    pub fn create_channel(&mut self, handle: u16, psm: u16, is_le: bool) -> (cid: u16)
        requires
            manager_wf(old(self)@),
        ensures
            cid == old(self)@.next_cid,
            final(self)@ == (L2capManagerView {
                channels: insert_channel(old(self)@.channels, new_channel_view(cid, handle, psm, is_le)),
                next_cid: old(self)@.next_cid.wrapping_add(1),
                ..old(self)@
            }),
            manager_wf(final(self)@),
    {
        let cid = self.alloc_cid();
        self.put_channel(L2capChannel::new(cid, handle, psm, is_le));
        cid
    }

    /// Get channel by local CID
    pub fn get_channel(&self, cid: u16) -> (r: Option<&L2capChannel>)
        ensures
            match r {
                Some(c) => find_cid(self@.channels, cid) >= 0 && c@ == self@.channels[find_cid(self@.channels, cid)],
                None => find_cid(self@.channels, cid) < 0,
            },
    {
        match self.find_channel(cid) {
            Some(i) => Some(&self.channels[i]),
            None => None,
        }
    }

    /// Index of the fixed channel of connection `handle` and CID `cid`.
    fn find_fixed_channel(&self, handle: u16, cid: u16) -> (r: Option<usize>)
        ensures
            match r {
                Some(i) => i == find_fixed(self@.fixed_channels, handle, cid) && i < self@.fixed_channels.len(),
                None => find_fixed(self@.fixed_channels, handle, cid) < 0,
            },
    {
        proof {
            lemma_find_fixed(self@.fixed_channels, handle, cid);
        }
        let mut i: usize = self.fixed_channels.len();
        assert(self@.fixed_channels.take(i as int) =~= self@.fixed_channels);
        while i > 0
            invariant
                i <= self.fixed_channels@.len(),
                self@.fixed_channels.len() == self.fixed_channels@.len(),
                find_fixed(self@.fixed_channels, handle, cid) == find_fixed(self@.fixed_channels.take(i as int), handle, cid),
            decreases i,
        {
            assert(self@.fixed_channels.take(i as int).drop_last() =~= self@.fixed_channels.take(i - 1));
            if self.fixed_channels[i - 1].handle == handle && self.fixed_channels[i - 1].local_cid == cid {
                return Some(i - 1);
            }
            i = i - 1;
        }
        None
    }

    /// Get fixed channel
    pub fn get_fixed_channel(&self, handle: u16, cid: u16) -> (r: Option<&L2capChannel>)
        ensures
            match r {
                Some(c) => find_fixed(self@.fixed_channels, handle, cid) >= 0
                    && c@ == self@.fixed_channels[find_fixed(self@.fixed_channels, handle, cid)],
                None => find_fixed(self@.fixed_channels, handle, cid) < 0,
            },
    {
        match self.find_fixed_channel(handle, cid) {
            Some(i) => Some(&self.fixed_channels[i]),
            None => None,
        }
    }

    /// Create fixed channel: an open channel for connection `handle` and
    /// CID `cid`, replacing one there was (LE from the ATT channel on).
    pub fn create_fixed_channel(&mut self, handle: u16, cid: u16)
        ensures
            ({
                let ch = L2capChannelView { state: L2capState::Open, ..new_channel_view(cid, handle, 0, cid >= L2CAP_CID_ATT) };
                let i = find_fixed(old(self)@.fixed_channels, handle, cid);
                final(self)@ == (L2capManagerView {
                    fixed_channels: if i >= 0 { old(self)@.fixed_channels.update(i, ch) } else { old(self)@.fixed_channels.push(ch) },
                    ..old(self)@
                })
            }),
    {
        let mut channel = L2capChannel::new(cid, handle, 0, cid >= L2CAP_CID_ATT);
        channel.set_state(L2capState::Open);
        let ghost cv = channel@;
        match self.find_fixed_channel(handle, cid) {
            Some(i) => {
                let _ = self.fixed_channels.remove(i);
                self.fixed_channels.insert(i, channel);
                assert(self@.fixed_channels =~= old(self)@.fixed_channels.update(i as int, cv));
            },
            None => {
                self.fixed_channels.push(channel);
                assert(self@.fixed_channels =~= old(self)@.fixed_channels.push(cv));
            },
        }
    }

    /// Send on the fixed channel of connection `handle` with CID `cid`: the
    /// data is queued when the channel exists and is open
    pub fn send_fixed(&mut self, handle: u16, cid: u16, data: Vec<u8>) -> (r: Result<(), BluetoothError>)
        ensures
            ({
                let i = find_fixed(old(self)@.fixed_channels, handle, cid);
                if i >= 0 && old(self)@.fixed_channels[i].state == L2capState::Open {
                    &&& r == Ok::<(), BluetoothError>(())
                    &&& final(self)@ == (L2capManagerView {
                        fixed_channels: old(self)@.fixed_channels.update(i, L2capChannelView {
                            tx_buffer: old(self)@.fixed_channels[i].tx_buffer.push(data@),
                            ..old(self)@.fixed_channels[i]
                        }),
                        ..old(self)@
                    })
                } else {
                    r == Err::<(), BluetoothError>(BluetoothError::NotConnected) && final(self)@ == old(self)@
                }
            }),
    {
        match self.find_fixed_channel(handle, cid) {
            Some(i) => {
                let mut ch = self.fixed_channels.remove(i);
                let ghost before = ch@;
                let r = ch.send(data);
                let ghost cv = ch@;
                self.fixed_channels.insert(i, ch);
                assert(self@.fixed_channels =~= old(self)@.fixed_channels.update(i as int, cv));
                proof {
                    if before.state != L2capState::Open {
                        assert(self@.fixed_channels =~= old(self)@.fixed_channels);
                    }
                }
                r
            },
            None => Err(BluetoothError::NotConnected),
        }
    }

    /// Remove channel
    pub fn remove_channel(&mut self, cid: u16)
        requires
            manager_wf(old(self)@),
        ensures
            final(self)@ == (L2capManagerView { channels: remove_cid(old(self)@.channels, cid), ..old(self)@ }),
            manager_wf(final(self)@),
    {
        proof {
            lemma_remove_sorted(self@.channels, cid);
        }
        match self.find_channel(cid) {
            Some(i) => {
                let _ = self.channels.remove(i);
                assert(self@.channels =~= old(self)@.channels.remove(i as int));
            },
            None => {},
        }
    }

    /// Queue the ACL packet that carries `payload` on channel `cid`.
    fn send_frame(&mut self, handle: u16, cid: u16, payload: Vec<u8>)
        ensures
            final(self)@ == sent(old(self)@, acl_frame(handle, cid, payload@)),
    {
        let packet = L2capPacket::new(cid, payload);
        let acl = AclPacket::new(handle, AclPacketBoundary::FirstAutoFlush, packet.to_bytes());
        let bytes = acl.to_bytes();
        self.outbox.push(bytes);
        assert(self@.outbox =~= old(self)@.outbox.push(acl_frame(handle, cid, payload@)));
    }

    /// Queue a signaling command, on the LE signaling channel when `le`.
    fn send_signal(&mut self, handle: u16, le: bool, signal: L2capSignal)
        ensures
            final(self)@ == sent(old(self)@, signal_frame(handle, le, signal.code, signal.id, signal.data@)),
    {
        let cid = if le { L2CAP_CID_LE_SIGNALING } else { L2CAP_CID_SIGNALING };
        self.send_frame(handle, cid, signal.to_bytes());
    }

    /// The serialized ACL packets sent so far, oldest first.
    pub fn sent_packets(&self) -> (r: &[Vec<u8>])
        ensures
            r@.map_values(|b: Vec<u8>| b@) == self@.outbox,
    {
        self.outbox.as_slice()
    }
}

// -----------------------------------------------------------------------------
// What incoming frames do
// -----------------------------------------------------------------------------

/// The manager and the result after queueing `data` on channel `cid`'s own
/// transmit queue: refused when the channel is not open, or is gone.
pub open spec fn queued_on(v: L2capManagerView, cid: u16, data: Seq<u8>) -> (L2capManagerView, Result<(), BluetoothError>) {
    let i = find_cid(v.channels, cid);
    let ch = v.channels[i];
    if i >= 0 && ch.state == L2capState::Open {
        (with_channel(v, i, L2capChannelView { tx_buffer: ch.tx_buffer.push(data), ..ch }), Ok(()))
    } else {
        (v, Err(BluetoothError::NotConnected))
    }
}

/// The manager after closing channel `cid` itself, if it is there.
pub open spec fn closed_on(v: L2capManagerView, cid: u16) -> L2capManagerView {
    let i = find_cid(v.channels, cid);
    let ch = v.channels[i];
    if i >= 0 { with_channel(v, i, L2capChannelView { state: L2capState::Closed, ..ch }) } else { v }
}

/// The manager after connecting to `psm` on connection `handle`: a new
/// channel, waiting for the response, under the next CID, and the
/// connection request sent.
pub open spec fn connected_on(v: L2capManagerView, handle: u16, psm: u16) -> L2capManagerView {
    let cid = v.next_cid;
    let ch = L2capChannelView { state: L2capState::WaitConnectRsp, ..new_channel_view(cid, handle, psm, false) };
    let v1 = L2capManagerView {
        channels: insert_channel(v.channels, ch),
        next_cid: cid.wrapping_add(1),
        next_sig_id: next_sig_after(v.next_sig_id),
        ..v
    };
    sent(v1, signal_frame(handle, false, L2capSigCode::ConnectionRequest.code(), sig_id_of(v.next_sig_id), le16(psm) + le16(cid)))
}

/// A channel opened by an incoming connection request: the PSM it was
/// made for and its local CID (the PSM's handler is told of it).
#[derive(Debug, Clone, Copy, PartialEq, Eq, Structural)]
pub struct AcceptedChannel {
    pub psm: u16,
    pub cid: u16,
}

/// The 16-bit little-endian field at byte `at` of `d`.
pub open spec fn field16(d: Seq<u8>, at: int) -> u16 {
    from_le16(d[at], d[at + 1])
}

/// The manager with the channel at `i` changed to `ch` (if `i` is an index).
pub open spec fn with_channel(v: L2capManagerView, i: int, ch: L2capChannelView) -> L2capManagerView {
    L2capManagerView { channels: update_at(v.channels, i, ch), ..v }
}

/// An incoming connection request: a registered PSM gets a new channel,
/// waiting for configuration, and a success response; another PSM gets
/// "PSM not supported".
pub open spec fn on_connection_request(v: L2capManagerView, handle: u16, id: u8, d: Seq<u8>) -> (L2capManagerView, Option<AcceptedChannel>) {
    if d.len() < 4 {
        (v, None)
    } else {
        let psm = field16(d, 0);
        let scid = field16(d, 2);
        let code = L2capSigCode::ConnectionResponse.code();
        if v.psms.contains(psm) {
            let cid = v.next_cid;
            let ch = L2capChannelView { remote_cid: scid, state: L2capState::Config, ..new_channel_view(cid, handle, psm, false) };
            let v1 = L2capManagerView { channels: insert_channel(v.channels, ch), next_cid: cid.wrapping_add(1), ..v };
            (
                sent(v1, signal_frame(handle, false, code, id, le16(cid) + le16(scid) + le16(0) + le16(0))),
                Some(AcceptedChannel { psm, cid }),
            )
        } else {
            (sent(v, signal_frame(handle, false, code, id, le16(0) + le16(scid) + le16(2) + le16(0))), None)
        }
    }
}

/// A connection response: success moves the channel to configuration with
/// the remote CID, anything else closes it.
pub open spec fn on_connection_response(v: L2capManagerView, d: Seq<u8>) -> L2capManagerView {
    if d.len() < 8 {
        v
    } else {
        let i = find_cid(v.channels, field16(d, 2));
        let ch = v.channels[i];
        if i < 0 {
            v
        } else if field16(d, 4) == 0 {
            with_channel(v, i, L2capChannelView { remote_cid: field16(d, 0), state: L2capState::Config, ..ch })
        } else {
            with_channel(v, i, L2capChannelView { state: L2capState::Closed, ..ch })
        }
    }
}

/// A configuration request: accepted with the default configuration, and
/// the channel is open.
pub open spec fn on_configuration_request(v: L2capManagerView, handle: u16, id: u8, d: Seq<u8>) -> L2capManagerView {
    if d.len() < 4 {
        v
    } else {
        let i = find_cid(v.channels, field16(d, 0));
        let ch = v.channels[i];
        if i < 0 {
            v
        } else {
            let code = L2capSigCode::ConfigurationResponse.code();
            let v1 = sent(v, signal_frame(handle, false, code, id, le16(ch.remote_cid) + le16(0) + le16(0)));
            with_channel(v1, i, L2capChannelView { state: L2capState::Open, ..ch })
        }
    }
}

/// A configuration response: success opens a channel being configured.
pub open spec fn on_configuration_response(v: L2capManagerView, d: Seq<u8>) -> L2capManagerView {
    if d.len() < 6 {
        v
    } else {
        let i = find_cid(v.channels, field16(d, 0));
        let ch = v.channels[i];
        if i >= 0 && field16(d, 4) == 0 && ch.state == L2capState::Config {
            with_channel(v, i, L2capChannelView { state: L2capState::Open, ..ch })
        } else {
            v
        }
    }
}

/// A disconnection request: answered, and the channel removed.
pub open spec fn on_disconnection_request(v: L2capManagerView, handle: u16, id: u8, d: Seq<u8>) -> L2capManagerView {
    if d.len() < 4 {
        v
    } else {
        let dcid = field16(d, 0);
        let scid = field16(d, 2);
        let v1 = sent(v, signal_frame(handle, false, L2capSigCode::DisconnectionResponse.code(), id, le16(dcid) + le16(scid)));
        L2capManagerView { channels: remove_cid(v1.channels, dcid), ..v1 }
    }
}

/// A disconnection response: the channel is removed.
pub open spec fn on_disconnection_response(v: L2capManagerView, d: Seq<u8>) -> L2capManagerView {
    if d.len() < 4 {
        v
    } else {
        L2capManagerView { channels: remove_cid(v.channels, field16(d, 2)), ..v }
    }
}

/// The data of the answer to an information request of type `t`: the
/// connectionless MTU, the extended features, the fixed channels, or "not
/// supported".
pub open spec fn info_response_data(v: L2capManagerView, t: u16) -> Seq<u8> {
    le16(t) + if t == 1 {
        le16(0) + le16(L2CAP_DEFAULT_MTU)
    } else if t == 2 {
        le16(0) + le32(v.extended_features)
    } else if t == 3 {
        le16(0) + le64(v.fixed_channels_mask as u64)
    } else {
        le16(1)
    }
}

/// An information request: answered.
pub open spec fn on_information_request(v: L2capManagerView, handle: u16, id: u8, d: Seq<u8>) -> L2capManagerView {
    if d.len() < 2 {
        v
    } else {
        sent(v, signal_frame(handle, false, L2capSigCode::InformationResponse.code(), id, info_response_data(v, field16(d, 0))))
    }
}

/// An LE credit based connection request: a registered PSM gets a new,
/// open channel with the peer's MTU and credits, and a response with the
/// local MTU, the peer's MPS and 10 credits; another PSM gets "PSM not
/// supported".
pub open spec fn on_le_credit_conn_request(v: L2capManagerView, handle: u16, id: u8, d: Seq<u8>) -> (L2capManagerView, Option<AcceptedChannel>) {
    if d.len() < 10 {
        (v, None)
    } else {
        let psm = field16(d, 0);
        let scid = field16(d, 2);
        let mtu = field16(d, 4);
        let mps = field16(d, 6);
        let credits = field16(d, 8);
        let code = L2capSigCode::LeCreditBasedConnResponse.code();
        if v.psms.contains(psm) {
            let cid = v.next_cid;
            let base = new_channel_view(cid, handle, psm, true);
            let ch = L2capChannelView {
                remote_cid: scid,
                remote_config: L2capConfig { mtu, ..base.remote_config },
                tx_credits: base.tx_credits.wrapping_add(credits),
                state: L2capState::Open,
                ..base
            };
            let v1 = L2capManagerView { channels: insert_channel(v.channels, ch), next_cid: cid.wrapping_add(1), ..v };
            let data = le16(cid) + le16(L2CAP_DEFAULT_MTU) + le16(mps) + le16(10) + le16(0);
            (sent(v1, signal_frame(handle, true, code, id, data)), Some(AcceptedChannel { psm, cid }))
        } else {
            (sent(v, signal_frame(handle, true, code, id, le16(0) + le16(0) + le16(0) + le16(0) + le16(2))), None)
        }
    }
}

/// Index of the first LE channel waiting for its connection response, at
/// or after `i`, or -1.
pub open spec fn first_pending_le(s: Seq<L2capChannelView>, i: int) -> int
    decreases s.len() - i,
{
    if i < 0 || i >= s.len() {
        -1
    } else if s[i].state == L2capState::WaitConnectRsp && s[i].is_le {
        i
    } else {
        first_pending_le(s, i + 1)
    }
}

/// An LE credit based connection response, for the first LE channel
/// waiting for one: success opens it with the peer's CID, MTU and credits,
/// anything else closes it.
pub open spec fn on_le_credit_conn_response(v: L2capManagerView, d: Seq<u8>) -> L2capManagerView {
    if d.len() < 10 {
        v
    } else {
        let i = first_pending_le(v.channels, 0);
        let ch = v.channels[i];
        if i < 0 {
            v
        } else if field16(d, 8) == 0 {
            with_channel(
                v,
                i,
                L2capChannelView {
                    remote_cid: field16(d, 0),
                    remote_config: L2capConfig { mtu: field16(d, 2), ..ch.remote_config },
                    tx_credits: ch.tx_credits.wrapping_add(field16(d, 6)),
                    state: L2capState::Open,
                    ..ch
                },
            )
        } else {
            with_channel(v, i, L2capChannelView { state: L2capState::Closed, ..ch })
        }
    }
}

/// A flow control credit: the channel gets the credits.
pub open spec fn on_flow_control_credit(v: L2capManagerView, d: Seq<u8>) -> L2capManagerView {
    if d.len() < 4 {
        v
    } else {
        let i = find_cid(v.channels, field16(d, 0));
        let ch = v.channels[i];
        if i < 0 {
            v
        } else {
            with_channel(v, i, L2capChannelView { tx_credits: ch.tx_credits.wrapping_add(field16(d, 2)), ..ch })
        }
    }
}

/// The manager after the signaling command in `data`, on the LE signaling
/// channel when `le`; an unknown command is rejected.
pub open spec fn on_signaling(v: L2capManagerView, handle: u16, data: Seq<u8>, le: bool) -> (L2capManagerView, Option<AcceptedChannel>) {
    if !signal_fits(data) {
        (v, None)
    } else {
        let code = data[0];
        let id = data[1];
        let d = data.subrange(4, 4 + field16(data, 2) as int);
        if code == L2capSigCode::ConnectionRequest.code() {
            on_connection_request(v, handle, id, d)
        } else if code == L2capSigCode::ConnectionResponse.code() {
            (on_connection_response(v, d), None)
        } else if code == L2capSigCode::ConfigurationRequest.code() {
            (on_configuration_request(v, handle, id, d), None)
        } else if code == L2capSigCode::ConfigurationResponse.code() {
            (on_configuration_response(v, d), None)
        } else if code == L2capSigCode::DisconnectionRequest.code() {
            (on_disconnection_request(v, handle, id, d), None)
        } else if code == L2capSigCode::DisconnectionResponse.code() {
            (on_disconnection_response(v, d), None)
        } else if code == L2capSigCode::InformationRequest.code() {
            (on_information_request(v, handle, id, d), None)
        } else if code == L2capSigCode::LeCreditBasedConnRequest.code() {
            on_le_credit_conn_request(v, handle, id, d)
        } else if code == L2capSigCode::LeCreditBasedConnResponse.code() {
            (on_le_credit_conn_response(v, d), None)
        } else if code == L2capSigCode::FlowControlCredit.code() {
            (on_flow_control_credit(v, d), None)
        } else if code == L2capSigCode::ConnParamUpdateRequest.code() {
            (sent(v, signal_frame(handle, true, L2capSigCode::ConnParamUpdateResponse.code(), id, le16(0))), None)
        } else {
            (sent(v, signal_frame(handle, le, L2capSigCode::CommandReject.code(), id, le16(0))), None)
        }
    }
}

/// The manager after a whole frame for channel `cid` of connection
/// `handle`: signaling is acted on, data is kept by its channel, and data
/// for no channel is dropped.
pub open spec fn on_frame(v: L2capManagerView, handle: u16, cid: u16, payload: Seq<u8>) -> (L2capManagerView, Option<AcceptedChannel>) {
    if cid == L2CAP_CID_SIGNALING {
        on_signaling(v, handle, payload, false)
    } else if cid == L2CAP_CID_LE_SIGNALING {
        on_signaling(v, handle, payload, true)
    } else if cid == L2CAP_CID_ATT || cid == L2CAP_CID_SMP {
        let i = find_fixed(v.fixed_channels, handle, cid);
        let ch = v.fixed_channels[i];
        if i < 0 {
            (v, None)
        } else {
            (L2capManagerView { fixed_channels: v.fixed_channels.update(i, L2capChannelView { rx_buffer: ch.rx_buffer.push(payload), ..ch }), ..v }, None)
        }
    } else if cid >= L2CAP_CID_DYN_START {
        let i = find_cid(v.channels, cid);
        let ch = v.channels[i];
        if i < 0 {
            (v, None)
        } else {
            (with_channel(v, i, L2capChannelView { rx_buffer: ch.rx_buffer.push(payload), ..ch }), None)
        }
    } else {
        (v, None)
    }
}

/// The manager after an ACL packet of connection `handle` with boundary
/// code `pb`: a first fragment holding a whole frame is handled; a
/// continuing fragment is added to the connection's partial frame, which is
/// handled and dropped once whole.
pub open spec fn on_acl(v: L2capManagerView, handle: u16, pb: u8, data: Seq<u8>) -> (L2capManagerView, Option<AcceptedChannel>) {
    if pb == AclPacketBoundary::FirstAutoFlush.code() || pb == AclPacketBoundary::FirstNonFlushable.code() {
        if frame_fits(data) {
            on_frame(v, handle, field16(data, 2), data.subrange(4, 4 + field16(data, 0) as int))
        } else {
            (v, None)
        }
    } else {
        let i = find_segment(v.segments, handle);
        if i < 0 {
            (v, None)
        } else {
            let buf = v.segments[i].1 + data;
            if frame_fits(buf) {
                let r = on_frame(
                    L2capManagerView { segments: v.segments.update(i, (handle, buf)), ..v },
                    handle,
                    field16(buf, 2),
                    buf.subrange(4, 4 + field16(buf, 0) as int),
                );
                (L2capManagerView { segments: r.0.segments.remove(i), ..r.0 }, r.1)
            } else {
                (L2capManagerView { segments: v.segments.update(i, (handle, buf)), ..v }, None)
            }
        }
    }
}

impl L2capManager {
    /// Change the channel at `i` to `ch`, whose CID is the same.
    fn replace_channel(&mut self, i: usize, ch: L2capChannel)
        requires
            manager_wf(old(self)@),
            i < old(self)@.channels.len(),
            ch@.local_cid == old(self)@.channels[i as int].local_cid,
        ensures
            final(self)@ == with_channel(old(self)@, i as int, ch@),
            manager_wf(final(self)@),
    {
        proof {
            lemma_update_sorted(self@.channels, i as int, ch@);
        }
        let ghost cv = ch@;
        let _ = self.channels.remove(i);
        self.channels.insert(i, ch);
        assert(self@.channels =~= update_at(old(self)@.channels, i as int, cv));
    }

    /// Take the channel at `i` out, to be put back changed.
    fn take_channel(&mut self, i: usize) -> (ch: L2capChannel)
        requires
            i < old(self)@.channels.len(),
        ensures
            ch@ == old(self)@.channels[i as int],
            final(self)@ == (L2capManagerView { channels: old(self)@.channels.remove(i as int), ..old(self)@ }),
    {
        let ch = self.channels.remove(i);
        assert(self@.channels =~= old(self)@.channels.remove(i as int));
        ch
    }

    /// Put back at `i` a channel taken out there, changed but with its CID.
    fn restore_channel(&mut self, i: usize, ch: L2capChannel, Ghost(before): Ghost<L2capManagerView>)
        requires
            manager_wf(before),
            i < before.channels.len(),
            old(self)@ == (L2capManagerView { channels: before.channels.remove(i as int), ..before }),
            ch@.local_cid == before.channels[i as int].local_cid,
        ensures
            final(self)@ == with_channel(before, i as int, ch@),
            manager_wf(final(self)@),
    {
        proof {
            lemma_update_sorted(before.channels, i as int, ch@);
        }
        let ghost cv = ch@;
        assert(self.channels@.len() == self@.channels.len());
        assert(self@.channels.len() + 1 == before.channels.len());
        self.channels.insert(i, ch);
        assert(self@.channels =~= update_at(before.channels, i as int, cv)) by {
            assert forall|k: int| 0 <= k < before.channels.len() implies #[trigger] self@.channels[k] == update_at(before.channels, i as int, cv)[k] by {
                if k < i {
                    assert(self@.channels[k] == old(self)@.channels[k]);
                } else if k > i {
                    assert(self@.channels[k] == old(self)@.channels[k - 1]);
                }
            }
        }
    }

    /// Connect to PSM: a new channel waiting for the response, and the
    /// connection request; gives the channel's CID.
    pub fn connect(&mut self, handle: u16, psm: u16) -> (r: Result<u16, BluetoothError>)
        requires
            manager_wf(old(self)@),
        ensures
            manager_wf(final(self)@),
            r == Ok::<u16, BluetoothError>(old(self)@.next_cid),
            final(self)@ == connected_on(old(self)@, handle, psm),
    {
        let cid = self.alloc_cid();
        let mut ch = L2capChannel::new(cid, handle, psm, false);
        ch.set_state(L2capState::WaitConnectRsp);
        self.put_channel(ch);
        let id = self.alloc_sig_id();
        self.send_signal(handle, false, L2capSignal::connection_request(id, psm, cid));
        Ok(cid)
    }

    /// Connect LE credit-based: a new LE channel with local MTU `mtu`,
    /// waiting for the response, and the request; gives the channel's CID.
    pub fn le_connect(&mut self, handle: u16, psm: u16, mtu: u16, mps: u16, credits: u16) -> (r: Result<u16, BluetoothError>)
        requires
            manager_wf(old(self)@),
        ensures
            manager_wf(final(self)@),
            r == Ok::<u16, BluetoothError>(old(self)@.next_cid),
            final(self)@ == ({
                let cid = old(self)@.next_cid;
                let base = new_channel_view(cid, handle, psm, true);
                let ch = L2capChannelView {
                    local_config: L2capConfig { mtu, ..base.local_config },
                    state: L2capState::WaitConnectRsp,
                    ..base
                };
                let v1 = L2capManagerView {
                    channels: insert_channel(old(self)@.channels, ch),
                    next_cid: cid.wrapping_add(1),
                    next_sig_id: next_sig_after(old(self)@.next_sig_id),
                    ..old(self)@
                };
                sent(
                    v1,
                    signal_frame(
                        handle,
                        true,
                        L2capSigCode::LeCreditBasedConnRequest.code(),
                        sig_id_of(old(self)@.next_sig_id),
                        le16(psm) + le16(cid) + le16(mtu) + le16(mps) + le16(credits),
                    ),
                )
            }),
    {
        let cid = self.alloc_cid();
        let mut ch = L2capChannel::new(cid, handle, psm, true);
        ch.local_config.mtu = mtu;
        ch.set_state(L2capState::WaitConnectRsp);
        self.put_channel(ch);
        let id = self.alloc_sig_id();
        self.send_signal(handle, true, L2capSignal::le_credit_conn_request(id, psm, cid, mtu, mps, credits));
        Ok(cid)
    }

    /// Disconnect channel: send the disconnection request for an open
    /// channel (the channel goes when the response comes).
    pub fn disconnect(&mut self, cid: u16) -> (r: Result<(), BluetoothError>)
        ensures
            ({
                let i = find_cid(old(self)@.channels, cid);
                let ch = old(self)@.channels[i];
                if i < 0 {
                    r == Err::<(), BluetoothError>(BluetoothError::NotFound) && final(self)@ == old(self)@
                } else if ch.state != L2capState::Open {
                    r == Err::<(), BluetoothError>(BluetoothError::NotConnected) && final(self)@ == old(self)@
                } else {
                    r == Ok::<(), BluetoothError>(()) && final(self)@ == sent(
                        L2capManagerView { next_sig_id: next_sig_after(old(self)@.next_sig_id), ..old(self)@ },
                        signal_frame(
                            ch.handle,
                            ch.is_le,
                            L2capSigCode::DisconnectionRequest.code(),
                            sig_id_of(old(self)@.next_sig_id),
                            le16(ch.remote_cid) + le16(cid),
                        ),
                    )
                }
            }),
    {
        let i = match self.find_channel(cid) {
            Some(i) => i,
            None => {
                return Err(BluetoothError::NotFound);
            },
        };
        if self.channels[i].state() != L2capState::Open {
            return Err(BluetoothError::NotConnected);
        }
        let handle = self.channels[i].handle;
        let remote_cid = self.channels[i].remote_cid;
        let is_le = self.channels[i].is_le;
        let id = self.alloc_sig_id();
        self.send_signal(handle, is_le, L2capSignal::disconnection_request(id, remote_cid, cid));
        Ok(())
    }

    /// Send data on an open channel: one frame to the remote CID.
    pub fn send(&mut self, cid: u16, data: &[u8]) -> (r: Result<(), BluetoothError>)
        ensures
            ({
                let i = find_cid(old(self)@.channels, cid);
                let ch = old(self)@.channels[i];
                if i < 0 {
                    r == Err::<(), BluetoothError>(BluetoothError::NotFound) && final(self)@ == old(self)@
                } else if ch.state != L2capState::Open {
                    r == Err::<(), BluetoothError>(BluetoothError::NotConnected) && final(self)@ == old(self)@
                } else {
                    r == Ok::<(), BluetoothError>(()) && final(self)@ == sent(old(self)@, acl_frame(ch.handle, ch.remote_cid, data@))
                }
            }),
    {
        let i = match self.find_channel(cid) {
            Some(i) => i,
            None => {
                return Err(BluetoothError::NotFound);
            },
        };
        if self.channels[i].state() != L2capState::Open {
            return Err(BluetoothError::NotConnected);
        }
        let handle = self.channels[i].handle;
        let remote_cid = self.channels[i].remote_cid;
        self.send_frame(handle, remote_cid, vstd::slice::slice_to_vec(data));
        Ok(())
    }

    /// Queue data on the channel itself (its transmit queue): refused when
    /// the channel is not open, or is gone.
    pub fn channel_send(&mut self, cid: u16, data: Vec<u8>) -> (r: Result<(), BluetoothError>)
        requires
            manager_wf(old(self)@),
        ensures
            manager_wf(final(self)@),
            (final(self)@, r) == queued_on(old(self)@, cid, data@),
    {
        let i = match self.find_channel(cid) {
            Some(i) => i,
            None => {
                return Err(BluetoothError::NotConnected);
            },
        };
        let ghost before = self@;
        let mut ch = self.take_channel(i);
        let r = ch.send(data);
        self.restore_channel(i, ch, Ghost(before));
        proof {
            if r is Err {
                assert(self@.channels =~= before.channels);
            }
        }
        r
    }

    /// Close the channel itself (its state only), if it is there.
    pub fn channel_close(&mut self, cid: u16)
        requires
            manager_wf(old(self)@),
        ensures
            manager_wf(final(self)@),
            final(self)@ == closed_on(old(self)@, cid),
    {
        match self.find_channel(cid) {
            Some(i) => {
                let ghost before = self@;
                let mut ch = self.take_channel(i);
                let _ = ch.disconnect();
                self.restore_channel(i, ch, Ghost(before));
            },
            None => {},
        }
    }
}

impl L2capManager {
    fn handle_connection_request(&mut self, handle: u16, id: u8, d: &[u8]) -> (r: Option<AcceptedChannel>)
        requires
            manager_wf(old(self)@),
        ensures
            (final(self)@, r) == on_connection_request(old(self)@, handle, id, d@),
            manager_wf(final(self)@),
    {
        if d.len() < 4 {
            return None;
        }
        let psm = make_u16(d[0], d[1]);
        let scid = make_u16(d[2], d[3]);
        if self.psm_registered(psm) {
            let cid = self.alloc_cid();
            let mut ch = L2capChannel::new(cid, handle, psm, false);
            ch.remote_cid = scid;
            ch.set_state(L2capState::Config);
            self.put_channel(ch);
            self.send_signal(handle, false, L2capSignal::connection_response(id, cid, scid, L2capConnResult::Success, 0));
            Some(AcceptedChannel { psm, cid })
        } else {
            self.send_signal(handle, false, L2capSignal::connection_response(id, 0, scid, L2capConnResult::PsmNotSupported, 0));
            None
        }
    }

    fn handle_connection_response(&mut self, d: &[u8])
        requires
            manager_wf(old(self)@),
        ensures
            final(self)@ == on_connection_response(old(self)@, d@),
            manager_wf(final(self)@),
    {
        if d.len() < 8 {
            return;
        }
        let dcid = make_u16(d[0], d[1]);
        let scid = make_u16(d[2], d[3]);
        let result = make_u16(d[4], d[5]);
        match self.find_channel(scid) {
            Some(i) => {
                let ghost before = self@;
                let mut ch = self.take_channel(i);
                if result == 0 {
                    ch.remote_cid = dcid;
                    ch.set_state(L2capState::Config);
                } else {
                    ch.set_state(L2capState::Closed);
                }
                self.restore_channel(i, ch, Ghost(before));
            },
            None => {},
        }
    }

    fn handle_configuration_request(&mut self, handle: u16, id: u8, d: &[u8])
        requires
            manager_wf(old(self)@),
        ensures
            final(self)@ == on_configuration_request(old(self)@, handle, id, d@),
            manager_wf(final(self)@),
    {
        if d.len() < 4 {
            return;
        }
        let dcid = make_u16(d[0], d[1]);
        match self.find_channel(dcid) {
            Some(i) => {
                let remote_cid = self.channels[i].remote_cid;
                let empty: [u8; 0] = [];
                assert(empty@ =~= Seq::<u8>::empty());
                self.send_signal(
                    handle,
                    false,
                    L2capSignal::configuration_response(id, remote_cid, 0, L2capConfResult::Success, empty.as_slice()),
                );
                let ghost before = self@;
                let mut ch = self.take_channel(i);
                ch.set_state(L2capState::Open);
                self.restore_channel(i, ch, Ghost(before));
            },
            None => {},
        }
    }

    fn handle_configuration_response(&mut self, d: &[u8])
        requires
            manager_wf(old(self)@),
        ensures
            final(self)@ == on_configuration_response(old(self)@, d@),
            manager_wf(final(self)@),
    {
        if d.len() < 6 {
            return;
        }
        let scid = make_u16(d[0], d[1]);
        let result = make_u16(d[4], d[5]);
        match self.find_channel(scid) {
            Some(i) => {
                if result == 0 && self.channels[i].state() == L2capState::Config {
                    let ghost before = self@;
                    let mut ch = self.take_channel(i);
                    ch.set_state(L2capState::Open);
                    self.restore_channel(i, ch, Ghost(before));
                }
            },
            None => {},
        }
    }

    fn handle_disconnection_request(&mut self, handle: u16, id: u8, d: &[u8])
        requires
            manager_wf(old(self)@),
        ensures
            final(self)@ == on_disconnection_request(old(self)@, handle, id, d@),
            manager_wf(final(self)@),
    {
        if d.len() < 4 {
            return;
        }
        let dcid = make_u16(d[0], d[1]);
        let scid = make_u16(d[2], d[3]);
        self.send_signal(handle, false, L2capSignal::disconnection_response(id, dcid, scid));
        self.remove_channel(dcid);
    }

    fn handle_disconnection_response(&mut self, d: &[u8])
        requires
            manager_wf(old(self)@),
        ensures
            final(self)@ == on_disconnection_response(old(self)@, d@),
            manager_wf(final(self)@),
    {
        if d.len() < 4 {
            return;
        }
        let scid = make_u16(d[2], d[3]);
        self.remove_channel(scid);
    }

    fn handle_information_request(&mut self, handle: u16, id: u8, d: &[u8])
        ensures
            final(self)@ == on_information_request(old(self)@, handle, id, d@),
    {
        if d.len() < 2 {
            return;
        }
        let info_type = make_u16(d[0], d[1]);
        let mut data: Vec<u8> = Vec::new();
        push_u16_le(&mut data, info_type);
        if info_type == 1 {
            push_u16_le(&mut data, 0);
            push_u16_le(&mut data, L2CAP_DEFAULT_MTU);
        } else if info_type == 2 {
            push_u16_le(&mut data, 0);
            push_u32_le(&mut data, self.extended_features);
        } else if info_type == 3 {
            push_u16_le(&mut data, 0);
            push_u64_le(&mut data, self.fixed_channels_mask as u64);
        } else {
            push_u16_le(&mut data, 1);
        }
        assert(data@ =~= info_response_data(self@, info_type));
        self.send_signal(handle, false, L2capSignal::new(L2capSigCode::InformationResponse, id, data));
    }

    fn handle_le_credit_conn_request(&mut self, handle: u16, id: u8, d: &[u8]) -> (r: Option<AcceptedChannel>)
        requires
            manager_wf(old(self)@),
        ensures
            (final(self)@, r) == on_le_credit_conn_request(old(self)@, handle, id, d@),
            manager_wf(final(self)@),
    {
        if d.len() < 10 {
            return None;
        }
        let psm = make_u16(d[0], d[1]);
        let scid = make_u16(d[2], d[3]);
        let mtu = make_u16(d[4], d[5]);
        let mps = make_u16(d[6], d[7]);
        let credits = make_u16(d[8], d[9]);
        let mut data: Vec<u8> = Vec::new();
        if self.psm_registered(psm) {
            let cid = self.alloc_cid();
            let mut ch = L2capChannel::new(cid, handle, psm, true);
            ch.remote_cid = scid;
            ch.remote_config.mtu = mtu;
            ch.add_tx_credits(credits);
            ch.set_state(L2capState::Open);
            let local_mtu = ch.local_config.mtu;
            self.put_channel(ch);
            push_u16_le(&mut data, cid);
            push_u16_le(&mut data, local_mtu);
            push_u16_le(&mut data, mps);
            push_u16_le(&mut data, 10);
            push_u16_le(&mut data, 0);
            assert(data@ =~= le16(cid) + le16(L2CAP_DEFAULT_MTU) + le16(mps) + le16(10) + le16(0));
            self.send_signal(handle, true, L2capSignal::new(L2capSigCode::LeCreditBasedConnResponse, id, data));
            Some(AcceptedChannel { psm, cid })
        } else {
            push_u16_le(&mut data, 0);
            push_u16_le(&mut data, 0);
            push_u16_le(&mut data, 0);
            push_u16_le(&mut data, 0);
            push_u16_le(&mut data, 2);
            assert(data@ =~= le16(0) + le16(0) + le16(0) + le16(0) + le16(2));
            self.send_signal(handle, true, L2capSignal::new(L2capSigCode::LeCreditBasedConnResponse, id, data));
            None
        }
    }

    fn first_pending_le_channel(&self) -> (r: Option<usize>)
        ensures
            match r {
                Some(i) => i == first_pending_le(self@.channels, 0) && i < self@.channels.len(),
                None => first_pending_le(self@.channels, 0) < 0,
            },
    {
        let mut i: usize = 0;
        while i < self.channels.len()
            invariant
                i <= self.channels@.len(),
                self@.channels.len() == self.channels@.len(),
                first_pending_le(self@.channels, 0) == first_pending_le(self@.channels, i as int),
            decreases self.channels@.len() - i,
        {
            if self.channels[i].state() == L2capState::WaitConnectRsp && self.channels[i].is_le {
                return Some(i);
            }
            i = i + 1;
        }
        None
    }

    fn handle_le_credit_conn_response(&mut self, d: &[u8])
        requires
            manager_wf(old(self)@),
        ensures
            final(self)@ == on_le_credit_conn_response(old(self)@, d@),
            manager_wf(final(self)@),
    {
        if d.len() < 10 {
            return;
        }
        let dcid = make_u16(d[0], d[1]);
        let mtu = make_u16(d[2], d[3]);
        let credits = make_u16(d[6], d[7]);
        let result = make_u16(d[8], d[9]);
        match self.first_pending_le_channel() {
            Some(i) => {
                let ghost before = self@;
                let mut ch = self.take_channel(i);
                if result == 0 {
                    ch.remote_cid = dcid;
                    ch.remote_config.mtu = mtu;
                    ch.add_tx_credits(credits);
                    ch.set_state(L2capState::Open);
                } else {
                    ch.set_state(L2capState::Closed);
                }
                self.restore_channel(i, ch, Ghost(before));
            },
            None => {},
        }
    }

    fn handle_flow_control_credit(&mut self, d: &[u8])
        requires
            manager_wf(old(self)@),
        ensures
            final(self)@ == on_flow_control_credit(old(self)@, d@),
            manager_wf(final(self)@),
    {
        if d.len() < 4 {
            return;
        }
        let cid = make_u16(d[0], d[1]);
        let credits = make_u16(d[2], d[3]);
        match self.find_channel(cid) {
            Some(i) => {
                let ghost before = self@;
                let mut ch = self.take_channel(i);
                ch.add_tx_credits(credits);
                self.restore_channel(i, ch, Ghost(before));
            },
            None => {},
        }
    }

    fn handle_signaling(&mut self, handle: u16, data: &[u8], le: bool) -> (r: Option<AcceptedChannel>)
        requires
            manager_wf(old(self)@),
        ensures
            (final(self)@, r) == on_signaling(old(self)@, handle, data@, le),
            manager_wf(final(self)@),
    {
        let signal = match L2capSignal::from_bytes(data) {
            Some(s) => s,
            None => {
                return None;
            },
        };
        let d = signal.data.as_slice();
        let code = signal.code;
        let id = signal.id;
        if code == 0x02 {
            self.handle_connection_request(handle, id, d)
        } else if code == 0x03 {
            self.handle_connection_response(d);
            None
        } else if code == 0x04 {
            self.handle_configuration_request(handle, id, d);
            None
        } else if code == 0x05 {
            self.handle_configuration_response(d);
            None
        } else if code == 0x06 {
            self.handle_disconnection_request(handle, id, d);
            None
        } else if code == 0x07 {
            self.handle_disconnection_response(d);
            None
        } else if code == 0x0A {
            self.handle_information_request(handle, id, d);
            None
        } else if code == 0x14 {
            self.handle_le_credit_conn_request(handle, id, d)
        } else if code == 0x15 {
            self.handle_le_credit_conn_response(d);
            None
        } else if code == 0x16 {
            self.handle_flow_control_credit(d);
            None
        } else if code == 0x12 {
            let mut data: Vec<u8> = Vec::new();
            push_u16_le(&mut data, 0);
            self.send_signal(handle, true, L2capSignal::new(L2capSigCode::ConnParamUpdateResponse, id, data));
            None
        } else {
            self.send_signal(handle, le, L2capSignal::command_reject(id, 0x0000, Vec::new()));
            None
        }
    }

    fn handle_frame(&mut self, handle: u16, cid: u16, payload: &[u8]) -> (r: Option<AcceptedChannel>)
        requires
            manager_wf(old(self)@),
        ensures
            (final(self)@, r) == on_frame(old(self)@, handle, cid, payload@),
            manager_wf(final(self)@),
    {
        if cid == L2CAP_CID_SIGNALING {
            self.handle_signaling(handle, payload, false)
        } else if cid == L2CAP_CID_LE_SIGNALING {
            self.handle_signaling(handle, payload, true)
        } else if cid == L2CAP_CID_ATT || cid == L2CAP_CID_SMP {
            match self.find_fixed_channel(handle, cid) {
                Some(i) => {
                    let mut ch = self.fixed_channels.remove(i);
                    ch.receive(payload);
                    let ghost cv = ch@;
                    self.fixed_channels.insert(i, ch);
                    assert(self@.fixed_channels =~= old(self)@.fixed_channels.update(i as int, cv));
                },
                None => {},
            }
            None
        } else if cid >= L2CAP_CID_DYN_START {
            match self.find_channel(cid) {
                Some(i) => {
                    let ghost before = self@;
                    let mut ch = self.take_channel(i);
                    ch.receive(payload);
                    self.restore_channel(i, ch, Ghost(before));
                },
                None => {},
            }
            None
        } else {
            None
        }
    }

    /// Index of the partial frame of connection `handle`.
    fn find_segment_buffer(&self, handle: u16) -> (r: Option<usize>)
        ensures
            match r {
                Some(i) => i == find_segment(self@.segments, handle) && i < self@.segments.len(),
                None => find_segment(self@.segments, handle) < 0,
            },
    {
        proof {
            lemma_find_segment(self@.segments, handle);
        }
        let mut i: usize = self.segment_buffers.len();
        assert(self@.segments.take(i as int) =~= self@.segments);
        while i > 0
            invariant
                i <= self.segment_buffers@.len(),
                self@.segments.len() == self.segment_buffers@.len(),
                find_segment(self@.segments, handle) == find_segment(self@.segments.take(i as int), handle),
            decreases i,
        {
            assert(self@.segments.take(i as int).drop_last() =~= self@.segments.take(i - 1));
            if self.segment_buffers[i - 1].0 == handle {
                return Some(i - 1);
            }
            i = i - 1;
        }
        None
    }

    /// Handle incoming ACL packet; gives the channel that an incoming
    /// connection request opened, if any.
    pub fn handle_acl(&mut self, acl: &AclPacket) -> (r: Option<AcceptedChannel>)
        requires
            manager_wf(old(self)@),
        ensures
            (final(self)@, r) == on_acl(old(self)@, acl.handle, acl.pb_flag.code(), acl.data@),
            manager_wf(final(self)@),
    {
        match acl.pb_flag {
            AclPacketBoundary::FirstAutoFlush | AclPacketBoundary::FirstNonFlushable => {
                match L2capPacket::from_acl_data(acl.data.as_slice()) {
                    Some(packet) => {
                        if packet.payload.len() >= packet.header.length as usize {
                            self.handle_frame(acl.handle, packet.header.cid, packet.payload.as_slice())
                        } else {
                            self.segment_buffers.push((acl.handle, vstd::slice::slice_to_vec(acl.data.as_slice())));
                            None
                        }
                    },
                    None => None,
                }
            },
            AclPacketBoundary::Continuing | AclPacketBoundary::Complete => {
                match self.find_segment_buffer(acl.handle) {
                    Some(i) => {
                        proof {
                            lemma_find_segment(self@.segments, acl.handle);
                        }
                        let ghost before = self@;
                        let (h, mut buffer) = self.segment_buffers.remove(i);
                        assert(h == acl.handle);
                        assert(self@.segments =~= before.segments.remove(i as int));
                        crate::wire::extend_bytes(&mut buffer, acl.data.as_slice());
                        let ghost bv = buffer@;
                        match L2capPacket::from_acl_data(buffer.as_slice()) {
                            Some(packet) => {
                                self.segment_buffers.insert(i, (h, buffer));
                                assert(self@.segments =~= old(self)@.segments.update(i as int, (acl.handle, bv))) by {
                                    assert forall|k: int| 0 <= k < before.segments.len() implies #[trigger] self@.segments[k] == old(self)@.segments.update(i as int, (acl.handle, bv))[k] by {
                                        if k < i {
                                            assert(self@.segments[k] == before.segments.remove(i as int)[k]);
                                        } else if k > i {
                                            assert(self@.segments[k] == before.segments.remove(i as int)[k - 1]);
                                        }
                                    }
                                }
                                let r = self.handle_frame(acl.handle, packet.header.cid, packet.payload.as_slice());
                                let ghost mid = self@;
                                let _ = self.segment_buffers.remove(i);
                                assert(self@.segments =~= mid.segments.remove(i as int));
                                r
                            },
                            None => {
                                self.segment_buffers.insert(i, (h, buffer));
                                assert(self@.segments =~= old(self)@.segments.update(i as int, (acl.handle, bv))) by {
                                    assert forall|k: int| 0 <= k < before.segments.len() implies #[trigger] self@.segments[k] == old(self)@.segments.update(i as int, (acl.handle, bv))[k] by {
                                        if k < i {
                                            assert(self@.segments[k] == before.segments.remove(i as int)[k]);
                                        } else if k > i {
                                            assert(self@.segments[k] == before.segments.remove(i as int)[k - 1]);
                                        }
                                    }
                                }
                                None
                            },
                        }
                    },
                    None => None,
                }
            },
        }
    }
}

} // verus!
