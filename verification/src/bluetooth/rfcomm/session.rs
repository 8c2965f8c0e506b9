//! RFCOMM channels and sessions: credit-based flow control, the multiplexer
//! that opens and closes data link connections over one L2CAP channel, and
//! the control commands exchanged on it.
use vstd::prelude::*;
use std::collections::VecDeque;
use super::{fcs_of, frame_address, frame_bytes, frame_data, frame_fits, modem_byte, ChannelState, MccType, ModemSignals, RfcommFrame, RfcommFrameType, RFCOMM_DEFAULT_MTU};
use crate::bluetooth::BluetoothError;
use crate::bluetooth::l2cap::{new_channel_view as new_link_view, L2capChannel, L2capChannelView, L2capState, L2CAP_PSM_RFCOMM};
use crate::bluetooth::l2cap::manager::{connected_on, manager_wf, L2capManager, L2capManagerView};
use super::RFCOMM_MAX_CHANNELS;
use crate::wire::{from_le16, le16, copy_range};

verus! {

/// The bytes of `s` cut into pieces of `n` bytes, the last one possibly
/// shorter.
pub open spec fn chunks_of(s: Seq<u8>, n: nat) -> Seq<Seq<u8>>
    decreases s.len(),
{
    if s.len() == 0 || n == 0 {
        Seq::empty()
    } else if s.len() <= n {
        seq![s]
    } else {
        seq![s.take(n as int)] + chunks_of(s.skip(n as int), n)
    }
}

/// Cut `data` into pieces of `n` bytes.
fn split_chunks(data: &[u8], n: usize) -> (r: Vec<Vec<u8>>)
    requires
        n > 0,
    ensures
        r@.map_values(|c: Vec<u8>| c@) == chunks_of(data@, n as nat),
{
    let mut out: Vec<Vec<u8>> = Vec::new();
    let mut i: usize = 0;
    assert(data@.skip(0) =~= data@);
    while i < data.len()
        invariant
            i <= data@.len(),
            n > 0,
            out@.map_values(|c: Vec<u8>| c@) + chunks_of(data@.skip(i as int), n as nat) == chunks_of(data@, n as nat),
        decreases data@.len() - i,
    {
        let end: usize = if data.len() - i <= n { data.len() } else { i + n };
        let c = copy_range(data, i, end);
        let ghost s = data@.skip(i as int);
        let ghost before = out@.map_values(|c: Vec<u8>| c@);
        proof {
            if s.len() <= n {
                assert(c@ =~= s);
                assert(data@.skip(end as int).len() == 0);
                assert(chunks_of(data@.skip(end as int), n as nat) =~= Seq::<Seq<u8>>::empty());
                assert(chunks_of(s, n as nat) == seq![s]);
            } else {
                assert(c@ =~= s.take(n as int));
                assert(s.skip(n as int) =~= data@.skip(end as int));
            }
        }
        out.push(c);
        assert(out@.map_values(|c: Vec<u8>| c@) =~= before.push(c@));
        assert(before.push(c@) + chunks_of(data@.skip(end as int), n as nat) =~= before + chunks_of(s, n as nat));
        i = end;
    }
    assert(data@.skip(i as int).len() == 0);
    assert(out@.map_values(|c: Vec<u8>| c@) + chunks_of(data@.skip(i as int), n as nat) =~= out@.map_values(|c: Vec<u8>| c@));
    out
}

/// What a channel holds.
pub struct RfcommChannelView {
    pub dlci: u8,
    pub channel: u8,
    pub initiator: bool,
    pub state: ChannelState,
    pub mtu: u16,
    pub tx_credits: u8,
    pub rx_credits: u8,
    pub credit_flow: bool,
    pub local_signals: ModemSignals,
    pub remote_signals: ModemSignals,
    /// Data queued for sending, oldest first
    pub tx_queue: Seq<Seq<u8>>,
    /// Data received and not yet read, oldest first
    pub rx_queue: Seq<Seq<u8>>,
}

/// RFCOMM channel (DLC)
pub struct RfcommChannel {
    /// DLCI (Data Link Connection Identifier)
    pub dlci: u8,
    /// Server channel (1-30)
    pub channel: u8,
    /// Are we initiator
    pub initiator: bool,
    state: ChannelState,
    /// MTU
    pub mtu: u16,
    tx_credits: u8,
    rx_credits: u8,
    /// Use credit-based flow control
    pub credit_flow: bool,
    /// Local modem signals
    pub local_signals: ModemSignals,
    /// Remote modem signals
    pub remote_signals: ModemSignals,
    tx_queue: VecDeque<Vec<u8>>,
    rx_queue: VecDeque<Vec<u8>>,
}

impl View for RfcommChannel {
    type V = RfcommChannelView;

    closed spec fn view(&self) -> RfcommChannelView {
        RfcommChannelView {
            dlci: self.dlci,
            channel: self.channel,
            initiator: self.initiator,
            state: self.state,
            mtu: self.mtu,
            tx_credits: self.tx_credits,
            rx_credits: self.rx_credits,
            credit_flow: self.credit_flow,
            local_signals: self.local_signals,
            remote_signals: self.remote_signals,
            tx_queue: self.tx_queue@.map_values(|v: Vec<u8>| v@),
            rx_queue: self.rx_queue@.map_values(|v: Vec<u8>| v@),
        }
    }
}

/// Modem signals with none set.
pub open spec fn no_signals() -> ModemSignals {
    ModemSignals { fc: false, rtc: false, rtr: false, ic: false, dv: false }
}

/// The signals of a channel ready for data.
pub open spec fn ready_signals() -> ModemSignals {
    ModemSignals { fc: false, rtc: true, rtr: true, ic: false, dv: true }
}

/// A new channel: closed, server channel from the DLCI, default MTU, no
/// credits to send, seven to receive, ready signals, empty queues.
pub open spec fn new_channel_view(dlci: u8, initiator: bool) -> RfcommChannelView {
    RfcommChannelView {
        dlci,
        channel: dlci / 2,
        initiator,
        state: ChannelState::Closed,
        mtu: RFCOMM_DEFAULT_MTU,
        tx_credits: 0,
        rx_credits: 7,
        credit_flow: true,
        local_signals: ready_signals(),
        remote_signals: no_signals(),
        tx_queue: Seq::empty(),
        rx_queue: Seq::empty(),
    }
}

/// The channel after receiving `data`: one receive credit used (the count
/// wraps) when flow control is on, and the data queued.
pub open spec fn received(c: RfcommChannelView, data: Seq<u8>) -> RfcommChannelView {
    RfcommChannelView {
        rx_credits: if c.credit_flow { c.rx_credits.wrapping_sub(1) } else { c.rx_credits },
        rx_queue: c.rx_queue.push(data),
        ..c
    }
}

impl RfcommChannel {
    /// Create new channel
    pub fn new(dlci: u8, initiator: bool) -> (r: Self)
        ensures
            r@ == new_channel_view(dlci, initiator),
    {
        let r = RfcommChannel {
            dlci,
            channel: dlci / 2,
            initiator,
            state: ChannelState::Closed,
            mtu: RFCOMM_DEFAULT_MTU,
            tx_credits: 0,
            rx_credits: 7,
            credit_flow: true,
            local_signals: ModemSignals::ready(),
            remote_signals: ModemSignals { fc: false, rtc: false, rtr: false, ic: false, dv: false },
            tx_queue: VecDeque::new(),
            rx_queue: VecDeque::new(),
        };
        assert(r@.tx_queue =~= Seq::<Seq<u8>>::empty());
        assert(r@.rx_queue =~= Seq::<Seq<u8>>::empty());
        r
    }

    /// Get state
    pub fn state(&self) -> (r: ChannelState)
        ensures
            r == self@.state,
    {
        self.state
    }

    /// Set state
    pub fn set_state(&mut self, state: ChannelState)
        ensures
            final(self)@ == (RfcommChannelView { state, ..old(self)@ }),
    {
        self.state = state;
    }

    /// Is channel open
    pub fn is_open(&self) -> (r: bool)
        ensures
            r == (self@.state == ChannelState::Open),
    {
        self.state == ChannelState::Open
    }

    /// Add TX credits (the count wraps)
    pub fn add_tx_credits(&mut self, credits: u8)
        ensures
            final(self)@ == (RfcommChannelView { tx_credits: old(self)@.tx_credits.wrapping_add(credits), ..old(self)@ }),
    {
        self.tx_credits = self.tx_credits.wrapping_add(credits);
    }

    /// Consume TX credit: false when there is none
    pub fn consume_tx_credit(&mut self) -> (r: bool)
        ensures
            r == (old(self)@.tx_credits > 0),
            final(self)@ == (RfcommChannelView {
                tx_credits: if r { (old(self)@.tx_credits - 1) as u8 } else { old(self)@.tx_credits },
                ..old(self)@
            }),
    {
        if self.tx_credits == 0 {
            return false;
        }
        self.tx_credits = self.tx_credits - 1;
        true
    }

    /// Get TX credits
    pub fn tx_credits(&self) -> (r: u8)
        ensures
            r == self@.tx_credits,
    {
        self.tx_credits
    }

    /// Grant RX credits (the count wraps); the number granted is returned
    pub fn grant_rx_credits(&mut self, credits: u8) -> (r: u8)
        ensures
            r == credits,
            final(self)@ == (RfcommChannelView { rx_credits: old(self)@.rx_credits.wrapping_add(credits), ..old(self)@ }),
    {
        self.rx_credits = self.rx_credits.wrapping_add(credits);
        credits
    }

    /// Consume RX credit (the count wraps)
    pub fn consume_rx_credit(&mut self)
        ensures
            final(self)@ == (RfcommChannelView { rx_credits: old(self)@.rx_credits.wrapping_sub(1), ..old(self)@ }),
    {
        self.rx_credits = self.rx_credits.wrapping_sub(1);
    }

    /// Get RX credits
    pub fn rx_credits(&self) -> (r: u8)
        ensures
            r == self@.rx_credits,
    {
        self.rx_credits
    }

    /// Queue data for sending, cut into pieces of at most the MTU
    pub fn send(&mut self, data: &[u8]) -> (r: Result<(), BluetoothError>)
        requires
            old(self)@.state == ChannelState::Open ==> old(self)@.mtu > 0,
        ensures
            old(self)@.state != ChannelState::Open ==> r == Err::<(), BluetoothError>(BluetoothError::NotConnected)
                && final(self)@ == old(self)@,
            old(self)@.state == ChannelState::Open ==> r is Ok && final(self)@ == (RfcommChannelView {
                tx_queue: old(self)@.tx_queue + chunks_of(data@, old(self)@.mtu as nat),
                ..old(self)@
            }),
    {
        if self.state != ChannelState::Open {
            return Err(BluetoothError::NotConnected);
        }
        let chunks = split_chunks(data, self.mtu as usize);
        let ghost q = self.tx_queue@;
        let ghost cs = chunks@;
        let ghost before = self@;
        for chunk in it: chunks
            invariant
                self.tx_queue@ == q + it.seq().take(it.index() as int),
                it.seq() == cs,
                self@ == (RfcommChannelView { tx_queue: self@.tx_queue, ..before }),
        {
            proof {
                assert(q + cs.take(it.index() + 1) =~= (q + cs.take(it.index() as int)).push(chunk));
            }
            self.tx_queue.push_back(chunk);
        }
        assert(cs.take(cs.len() as int) =~= cs);
        assert((q + cs).map_values(|v: Vec<u8>| v@) =~= q.map_values(|v: Vec<u8>| v@) + cs.map_values(|v: Vec<u8>| v@));
        Ok(())
    }

    /// Receive data: one receive credit is used when flow control is on and
    /// the data is queued for reading
    pub fn receive(&mut self, data: &[u8])
        ensures
            final(self)@ == received(old(self)@, data@),
    {
        if self.credit_flow {
            self.consume_rx_credit();
        }
        let ghost before = self@;
        self.rx_queue.push_back(vstd::slice::slice_to_vec(data));
        assert(self@.rx_queue =~= before.rx_queue.push(data@));
    }

    /// Get pending TX data, oldest first
    pub fn pending_tx(&mut self) -> (r: Option<Vec<u8>>)
        ensures
            old(self)@.tx_queue.len() == 0 ==> r is None && final(self)@ == old(self)@,
            old(self)@.tx_queue.len() > 0 ==> r is Some && r->Some_0@ == old(self)@.tx_queue[0]
                && final(self)@ == (RfcommChannelView { tx_queue: old(self)@.tx_queue.drop_first(), ..old(self)@ }),
    {
        if self.tx_queue.len() == 0 {
            return None;
        }
        let d = self.tx_queue.pop_front().unwrap();
        assert(self@.tx_queue =~= old(self)@.tx_queue.drop_first());
        Some(d)
    }

    /// Get pending RX data, oldest first
    pub fn pending_rx(&mut self) -> (r: Option<Vec<u8>>)
        ensures
            old(self)@.rx_queue.len() == 0 ==> r is None && final(self)@ == old(self)@,
            old(self)@.rx_queue.len() > 0 ==> r is Some && r->Some_0@ == old(self)@.rx_queue[0]
                && final(self)@ == (RfcommChannelView { rx_queue: old(self)@.rx_queue.drop_first(), ..old(self)@ }),
    {
        if self.rx_queue.len() == 0 {
            return None;
        }
        let d = self.rx_queue.pop_front().unwrap();
        assert(self@.rx_queue =~= old(self)@.rx_queue.drop_first());
        Some(d)
    }

    /// Read the oldest received data into `buf` (as much as fits; the rest
    /// of that data is dropped)
    pub fn read(&mut self, buf: &mut [u8]) -> (r: Result<usize, BluetoothError>)
        ensures
            old(self)@.rx_queue.len() == 0 ==> r == Err::<usize, BluetoothError>(BluetoothError::WouldBlock)
                && final(self)@ == old(self)@ && final(buf)@ == old(buf)@,
            old(self)@.rx_queue.len() > 0 ==> ({
                let d = old(self)@.rx_queue[0];
                let n = if d.len() < old(buf)@.len() { d.len() } else { old(buf)@.len() };
                &&& r == Ok::<usize, BluetoothError>(n as usize)
                &&& final(self)@ == (RfcommChannelView { rx_queue: old(self)@.rx_queue.drop_first(), ..old(self)@ })
                &&& final(buf)@ == d.take(n as int) + old(buf)@.skip(n as int)
            }),
    {
        match self.pending_rx() {
            Some(data) => {
                let len = if data.len() < buf.len() { data.len() } else { buf.len() };
                let mut i: usize = 0;
                while i < len
                    invariant
                        i <= len,
                        len <= data@.len(),
                        len <= buf@.len(),
                        buf@.len() == old(buf)@.len(),
                        buf@ == data@.take(i as int) + old(buf)@.skip(i as int),
                    decreases len - i,
                {
                    buf[i] = data[i];
                    i = i + 1;
                    assert(buf@ =~= data@.take(i as int) + old(buf)@.skip(i as int));
                }
                Ok(len)
            },
            None => Err(BluetoothError::WouldBlock),
        }
    }

    /// Write data: sent as `send` does; the whole length is reported
    pub fn write(&mut self, data: &[u8]) -> (r: Result<usize, BluetoothError>)
        requires
            old(self)@.state == ChannelState::Open ==> old(self)@.mtu > 0,
        ensures
            old(self)@.state != ChannelState::Open ==> r == Err::<usize, BluetoothError>(BluetoothError::NotConnected)
                && final(self)@ == old(self)@,
            old(self)@.state == ChannelState::Open ==> r == Ok::<usize, BluetoothError>(data@.len() as usize)
                && final(self)@ == (RfcommChannelView {
                tx_queue: old(self)@.tx_queue + chunks_of(data@, old(self)@.mtu as nat),
                ..old(self)@
            }),
    {
        match self.send(data) {
            Ok(()) => Ok(data.len()),
            Err(e) => Err(e),
        }
    }
}


/// The bytes of a frame without data: address, control, zero length and the
/// check sequence over address and control.
pub open spec fn ctrl_frame(dlci: u8, cr: bool, control: u8) -> Seq<u8> {
    let a = frame_address(dlci, cr);
    frame_bytes(a, control, 0, None, Seq::empty(), fcs_of(seq![a, control]))
}

/// The bytes of a UIH frame carrying `data`, with a credit byte when
/// `credits` holds one.
pub open spec fn uih_frame(dlci: u8, cr: bool, data: Seq<u8>, credits: Option<u8>) -> Seq<u8> {
    let a = frame_address(dlci, cr);
    let c: u8 = if credits is Some { 0xFF } else { 0xEF };
    frame_bytes(a, c, (data.len() % 65536) as u16, credits, data, fcs_of(seq![a, c]))
}

/// The bytes of a multiplexer control message on DLCI 0: type byte (with
/// the command bit when `command`), length byte, value.
pub open spec fn mcc_frame(initiator: bool, t: MccType, command: bool, data: Seq<u8>) -> Seq<u8> {
    uih_frame(
        0,
        initiator,
        seq![t.code() | (if command { 2u8 } else { 0u8 }) | 1u8, (((data.len() % 256) as u8) << 1u8) | 1u8] + data,
        None,
    )
}

pub open spec fn sabm_bytes(dlci: u8, initiator: bool) -> Seq<u8> {
    ctrl_frame(dlci, initiator, 0x3F)
}

pub open spec fn ua_bytes(dlci: u8, initiator: bool) -> Seq<u8> {
    ctrl_frame(dlci, !initiator, 0x73)
}

pub open spec fn disc_bytes(dlci: u8, initiator: bool) -> Seq<u8> {
    ctrl_frame(dlci, initiator, 0x53)
}

/// The modem status command for `dlci`.
pub open spec fn msc_bytes(initiator: bool, dlci: u8, s: ModemSignals) -> Seq<u8> {
    mcc_frame(initiator, MccType::Msc, true, seq![(dlci << 2u8) | 3u8, modem_byte(s)])
}

/// The parameter negotiation command for `dlci`: credit-based flow
/// control, frame size `mtu`, seven initial credits.
pub open spec fn pn_bytes(initiator: bool, dlci: u8, mtu: u16) -> Seq<u8> {
    mcc_frame(initiator, MccType::Pn, true, seq![dlci, 0xE0u8, 0u8, 0u8] + le16(mtu) + seq![0u8, 7u8])
}

/// The signals a modem status byte carries.
pub open spec fn signals_of(b: u8) -> ModemSignals {
    ModemSignals {
        fc: crate::wire::bit_set(b, 1),
        rtc: crate::wire::bit_set(b, 2),
        rtr: crate::wire::bit_set(b, 3),
        ic: crate::wire::bit_set(b, 6),
        dv: crate::wire::bit_set(b, 7),
    }
}

/// What a session holds.
pub struct RfcommSessionView {
    /// The L2CAP channel the frames go out on
    pub link: L2capChannelView,
    pub initiator: bool,
    pub mux_open: bool,
    /// The data link connections, in the order they were created
    pub channels: Seq<RfcommChannelView>,
    pub pending_pn: Option<(u8, u16)>,
    pub mtu: u16,
    pub credit_flow: bool,
}

/// RFCOMM session (multiplexer)
pub struct RfcommSession {
    l2cap_channel: L2capChannel,
    /// Are we initiator
    pub initiator: bool,
    mux_open: bool,
    channels: Vec<RfcommChannel>,
    pending_pn: Option<(u8, u16)>,
    /// Session MTU
    pub mtu: u16,
    /// Credit-based flow control
    pub credit_flow: bool,
}

impl View for RfcommSession {
    type V = RfcommSessionView;

    closed spec fn view(&self) -> RfcommSessionView {
        RfcommSessionView {
            link: self.l2cap_channel@,
            initiator: self.initiator,
            mux_open: self.mux_open,
            channels: self.channels@.map_values(|c: RfcommChannel| c@),
            pending_pn: self.pending_pn,
            mtu: self.mtu,
            credit_flow: self.credit_flow,
        }
    }
}

/// The L2CAP channel after sending `b`: queued when it is open, refused
/// otherwise.
pub open spec fn sent(l: L2capChannelView, b: Seq<u8>) -> L2capChannelView {
    if l.state == L2capState::Open {
        L2capChannelView { tx_buffer: l.tx_buffer.push(b), ..l }
    } else {
        l
    }
}

/// The L2CAP channel after sending each of `frames` in turn.
pub open spec fn sent_all(l: L2capChannelView, frames: Seq<Seq<u8>>) -> L2capChannelView {
    if l.state == L2capState::Open {
        L2capChannelView { tx_buffer: l.tx_buffer + frames, ..l }
    } else {
        l
    }
}

/// Index of the channel with DLCI `d`, or -1.
pub open spec fn find_dlci(s: Seq<RfcommChannelView>, d: u8) -> int
    decreases s.len(),
{
    if s.len() == 0 {
        -1
    } else if s.last().dlci == d {
        s.len() - 1
    } else {
        find_dlci(s.drop_last(), d)
    }
}

/// The index `find_dlci` gives is that of a channel with the DLCI.
pub proof fn lemma_find_dlci(s: Seq<RfcommChannelView>, d: u8)
    ensures
        -1 <= find_dlci(s, d) < s.len(),
        find_dlci(s, d) >= 0 ==> s[find_dlci(s, d)].dlci == d,
        find_dlci(s, d) < 0 ==> forall|k: int| 0 <= k < s.len() ==> s[k].dlci != d,
    decreases s.len(),
{
    if s.len() > 0 {
        lemma_find_dlci(s.drop_last(), d);
        assert forall|k: int| 0 <= k < s.len() - 1 implies s.drop_last()[k] == s[k] by {}
    }
}

/// The channels with one for `d` created when there is none.
pub open spec fn with_channel(s: Seq<RfcommChannelView>, d: u8, initiator: bool) -> Seq<RfcommChannelView> {
    if find_dlci(s, d) >= 0 { s } else { s.push(new_channel_view(d, initiator)) }
}

/// The channels with the one for `d` (if any) in state `st`.
pub open spec fn set_chan_state(s: Seq<RfcommChannelView>, d: u8, st: ChannelState) -> Seq<RfcommChannelView> {
    let i = find_dlci(s, d);
    if i < 0 { s } else { s.update(i, RfcommChannelView { state: st, ..s[i] }) }
}

/// The channels, all closed.
pub open spec fn all_closed(s: Seq<RfcommChannelView>) -> Seq<RfcommChannelView> {
    s.map_values(|c: RfcommChannelView| RfcommChannelView { state: ChannelState::Closed, ..c })
}

/// The DLCI of server channel `sc` on this side: the channel shifted up one
/// bit, the direction bit set for the responder.
pub open spec fn dlci_for(sc: u8, initiator: bool) -> u8 {
    (sc << 1u8) | (if initiator { 0u8 } else { 1u8 })
}

/// Whether `send_data` on `d` gets as far as sending frames.
pub open spec fn data_may_flow(v: RfcommSessionView, d: u8) -> bool {
    let i = find_dlci(v.channels, d);
    i >= 0 && v.channels[i].state == ChannelState::Open && !(v.channels[i].credit_flow && v.channels[i].tx_credits < 1)
}

/// The session after a SABM on `d`: on DLCI 0 the multiplexer opens; on a
/// data DLCI the channel (created if needed) opens; both are acknowledged,
/// a data channel with a modem status command as well.
pub open spec fn on_sabm(v: RfcommSessionView, d: u8) -> RfcommSessionView {
    if d == 0 {
        RfcommSessionView { mux_open: true, link: sent(v.link, ua_bytes(0, v.initiator)), ..v }
    } else {
        RfcommSessionView {
            channels: set_chan_state(with_channel(v.channels, d, v.initiator), d, ChannelState::Open),
            link: sent(sent(v.link, ua_bytes(d, v.initiator)), msc_bytes(v.initiator, d, ready_signals())),
            ..v
        }
    }
}

/// The session after a UA on `d`: the multiplexer opens on DLCI 0; a
/// channel waiting for it opens and sends its modem status.
pub open spec fn on_ua(v: RfcommSessionView, d: u8) -> RfcommSessionView {
    if d == 0 {
        RfcommSessionView { mux_open: true, ..v }
    } else {
        let i = find_dlci(v.channels, d);
        if i >= 0 && v.channels[i].state == ChannelState::WaitUa {
            RfcommSessionView {
                channels: set_chan_state(v.channels, d, ChannelState::Open),
                link: sent(v.link, msc_bytes(v.initiator, d, ready_signals())),
                ..v
            }
        } else {
            v
        }
    }
}

/// The session after a DM on `d`: the multiplexer or the channel is refused.
pub open spec fn on_dm(v: RfcommSessionView, d: u8) -> RfcommSessionView {
    if d == 0 {
        RfcommSessionView { mux_open: false, ..v }
    } else {
        RfcommSessionView { channels: set_chan_state(v.channels, d, ChannelState::Closed), ..v }
    }
}

/// The session after a DISC on `d`: acknowledged; on DLCI 0 the
/// multiplexer and every channel close, otherwise that channel closes.
pub open spec fn on_disc(v: RfcommSessionView, d: u8) -> RfcommSessionView {
    let l = sent(v.link, ua_bytes(d, v.initiator));
    if d == 0 {
        RfcommSessionView { mux_open: false, channels: all_closed(v.channels), link: l, ..v }
    } else {
        RfcommSessionView { channels: set_chan_state(v.channels, d, ChannelState::Closed), link: l, ..v }
    }
}

/// The channels after credits for `d` arrive.
pub open spec fn with_credits(s: Seq<RfcommChannelView>, d: u8, credits: Option<u8>) -> Seq<RfcommChannelView> {
    let i = find_dlci(s, d);
    match credits {
        Some(c) => if i < 0 { s } else { s.update(i, RfcommChannelView { tx_credits: s[i].tx_credits.wrapping_add(c), ..s[i] }) },
        None => s,
    }
}

/// The channels after `data` arrives for `d`.
pub open spec fn delivered(s: Seq<RfcommChannelView>, d: u8, data: Seq<u8>) -> Seq<RfcommChannelView> {
    let i = find_dlci(s, d);
    if i < 0 { s } else { s.update(i, received(s[i], data)) }
}

/// The session after answering a control command of type `t` with `data`.
pub open spec fn replied(v: RfcommSessionView, t: MccType, data: Seq<u8>) -> RfcommSessionView {
    RfcommSessionView { link: sent(v.link, mcc_frame(v.initiator, t, false, data)), ..v }
}

/// The session after a parameter negotiation message with value `data`: a
/// command is echoed back; a response for the pending DLCI sets the
/// channel's frame size, adds its credits, and the channel is opened with a
/// SABM.
pub open spec fn on_pn(v: RfcommSessionView, cmd: bool, data: Seq<u8>) -> RfcommSessionView {
    if data.len() < 8 {
        v
    } else if cmd {
        replied(v, MccType::Pn, data)
    } else {
        let d = data[0] & 0x3Fu8;
        match v.pending_pn {
            Some(p) => if p.0 == d {
                let cs = with_channel(v.channels, d, v.initiator);
                let i = find_dlci(cs, d);
                RfcommSessionView {
                    channels: cs.update(i, RfcommChannelView {
                        mtu: from_le16(data[4], data[5]),
                        tx_credits: cs[i].tx_credits.wrapping_add(data[7]),
                        state: ChannelState::WaitUa,
                        ..cs[i]
                    }),
                    link: sent(v.link, sabm_bytes(d, v.initiator)),
                    ..v
                }
            } else {
                v
            },
            None => v,
        }
    }
}

/// The session after a modem status message: the channel's remote signals
/// are recorded, and a command is echoed back.
pub open spec fn on_msc(v: RfcommSessionView, cmd: bool, data: Seq<u8>) -> RfcommSessionView {
    if data.len() < 2 {
        v
    } else {
        let d = (data[0] >> 2u8) & 0x3Fu8;
        let i = find_dlci(v.channels, d);
        let cs = if i < 0 { v.channels } else { v.channels.update(i, RfcommChannelView { remote_signals: signals_of(data[1]), ..v.channels[i] }) };
        let v1 = RfcommSessionView { channels: cs, ..v };
        if cmd { replied(v1, MccType::Msc, data) } else { v1 }
    }
}

/// The session after a control message on DLCI 0: type byte, length byte
/// (length in the upper seven bits), value. Port negotiation, line status
/// and test commands are echoed, flow control commands answered with no
/// value, other commands answered as not supported.
pub open spec fn on_mcc(v: RfcommSessionView, data: Seq<u8>) -> RfcommSessionView {
    if data.len() < 2 {
        v
    } else {
        let t = data[0];
        let cmd = t & 2u8 != 0u8;
        let len = (data[1] >> 1u8) as int;
        if data.len() < 2 + len {
            v
        } else {
            let val = data.subrange(2, 2 + len);
            match MccType::of_type_byte(t) {
                Some(MccType::Pn) => on_pn(v, cmd, val),
                Some(MccType::Msc) => on_msc(v, cmd, val),
                Some(MccType::Rpn) => if cmd { replied(v, MccType::Rpn, val) } else { v },
                Some(MccType::Rls) => if cmd { replied(v, MccType::Rls, val) } else { v },
                Some(MccType::Test) => if cmd { replied(v, MccType::Test, val) } else { v },
                Some(MccType::FcOn) => if cmd { replied(v, MccType::FcOn, Seq::empty()) } else { v },
                Some(MccType::FcOff) => if cmd { replied(v, MccType::FcOff, Seq::empty()) } else { v },
                _ => if cmd { replied(v, MccType::Nsc, seq![t]) } else { v },
            }
        }
    }
}

/// The session after a UIH frame on `d`: credits are added to the channel;
/// DLCI 0 carries control messages, other DLCIs data for their channel.
pub open spec fn on_uih(v: RfcommSessionView, d: u8, credits: Option<u8>, data: Seq<u8>) -> RfcommSessionView {
    let v1 = RfcommSessionView { channels: with_credits(v.channels, d, credits), ..v };
    if d == 0 {
        on_mcc(v1, data)
    } else {
        RfcommSessionView { channels: delivered(v1.channels, d, data), ..v1 }
    }
}

/// The session after a frame with these fields.
pub open spec fn on_frame(v: RfcommSessionView, address: u8, control: u8, credits: Option<u8>, data: Seq<u8>) -> RfcommSessionView {
    let d = address / 4;
    match RfcommFrameType::of_control(control) {
        Some(RfcommFrameType::Sabm) => on_sabm(v, d),
        Some(RfcommFrameType::Ua) => on_ua(v, d),
        Some(RfcommFrameType::Dm) => on_dm(v, d),
        Some(RfcommFrameType::Disc) => on_disc(v, d),
        Some(RfcommFrameType::Uih) => on_uih(v, d, credits, data),
        Some(RfcommFrameType::UihCredits) => on_uih(v, d, credits, data),
        None => v,
    }
}

/// The session after the bytes `b` arrive from L2CAP: a whole frame is
/// handled, anything else ignored.
pub open spec fn on_data(v: RfcommSessionView, b: Seq<u8>) -> RfcommSessionView {
    if frame_fits(b) { on_frame(v, b[0], b[1], None, frame_data(b)) } else { v }
}

/// Two channel lists with the same DLCIs at the same places find a DLCI at
/// the same index.
pub proof fn lemma_find_dlci_same(s: Seq<RfcommChannelView>, t: Seq<RfcommChannelView>, d: u8)
    requires
        s.len() == t.len(),
        forall|k: int| 0 <= k < s.len() ==> #[trigger] s[k].dlci == t[k].dlci,
    ensures
        find_dlci(s, d) == find_dlci(t, d),
    decreases s.len(),
{
    if s.len() > 0 {
        assert forall|k: int| 0 <= k < s.len() - 1 implies #[trigger] s.drop_last()[k].dlci == t.drop_last()[k].dlci by {
            assert(s[k].dlci == t[k].dlci);
        }
        lemma_find_dlci_same(s.drop_last(), t.drop_last(), d);
    }
}

impl RfcommSession {
    /// Create new session over an L2CAP channel
    pub fn new(l2cap_channel: L2capChannel, initiator: bool) -> (r: Self)
        ensures
            r@ == (RfcommSessionView {
                link: l2cap_channel@,
                initiator,
                mux_open: false,
                channels: Seq::empty(),
                pending_pn: None,
                mtu: RFCOMM_DEFAULT_MTU,
                credit_flow: true,
            }),
    {
        let r = RfcommSession {
            l2cap_channel,
            initiator,
            mux_open: false,
            channels: Vec::new(),
            pending_pn: None,
            mtu: RFCOMM_DEFAULT_MTU,
            credit_flow: true,
        };
        assert(r@.channels =~= Seq::<RfcommChannelView>::empty());
        r
    }

    /// The L2CAP channel the session sends on, to hand it received data or
    /// take what was queued
    pub fn l2cap_channel_mut(&mut self) -> (r: &mut L2capChannel)
        ensures
            r@ == old(self)@.link,
            final(self)@ == (RfcommSessionView { link: final(r)@, ..old(self)@ }),
    {
        &mut self.l2cap_channel
    }

    /// Is multiplexer open
    pub fn is_mux_open(&self) -> (r: bool)
        ensures
            r == self@.mux_open,
    {
        self.mux_open
    }

    /// Send frame on the L2CAP channel
    fn send_frame(&mut self, frame: &RfcommFrame) -> (r: Result<(), BluetoothError>)
        ensures
            final(self)@ == (RfcommSessionView {
                link: sent(old(self)@.link, frame_bytes(frame.address, frame.control, frame.length, frame.credits, frame.data@, frame.fcs)),
                ..old(self)@
            }),
            r == if old(self)@.link.state == L2capState::Open { Ok::<(), BluetoothError>(()) } else { Err(BluetoothError::NotConnected) },
    {
        let data = frame.to_bytes();
        self.l2cap_channel.send(data)
    }

    /// Send a frame without data
    fn send_ctrl(&mut self, frame: RfcommFrame) -> (r: Result<(), BluetoothError>)
        requires
            frame.length == 0,
            frame.credits is None,
            frame.data@.len() == 0,
            frame.fcs == fcs_of(seq![frame.address, frame.control]),
        ensures
            final(self)@ == (RfcommSessionView {
                link: sent(old(self)@.link, frame_bytes(frame.address, frame.control, 0, None, Seq::empty(), fcs_of(seq![frame.address, frame.control]))),
                ..old(self)@
            }),
            r == if old(self)@.link.state == L2capState::Open { Ok::<(), BluetoothError>(()) } else { Err(BluetoothError::NotConnected) },
    {
        assert(frame.data@ =~= Seq::<u8>::empty());
        self.send_frame(&frame)
    }

    /// Send MCC (Multiplexer Control Command) as UIH on DLCI 0
    fn send_mcc(&mut self, mcc_type: MccType, command: bool, data: &[u8]) -> (r: Result<(), BluetoothError>)
        ensures
            final(self)@ == (RfcommSessionView { link: sent(old(self)@.link, mcc_frame(old(self)@.initiator, mcc_type, command, data@)), ..old(self)@ }),
            r == if old(self)@.link.state == L2capState::Open { Ok::<(), BluetoothError>(()) } else { Err(BluetoothError::NotConnected) },
    {
        let mut m: Vec<u8> = Vec::new();
        let c: u8 = if command { 0x02 } else { 0x00 };
        m.push(mcc_type.to_u8() | c | 0x01);
        m.push((((data.len() % 256) as u8) << 1) | 0x01);
        crate::wire::extend_bytes(&mut m, data);
        let ghost mv = m@;
        assert(mv =~= seq![mcc_type.code() | (if command { 2u8 } else { 0u8 }) | 1u8, (((data@.len() % 256) as u8) << 1u8) | 1u8] + data@);
        let frame = RfcommFrame::uih(0, self.initiator, m, None);
        self.send_frame(&frame)
    }

    /// Send PN (Parameter Negotiation)
    fn send_pn(&mut self, dlci: u8) -> (r: Result<(), BluetoothError>)
        ensures
            final(self)@ == (RfcommSessionView { link: sent(old(self)@.link, pn_bytes(old(self)@.initiator, dlci, old(self)@.mtu)), ..old(self)@ }),
            r == if old(self)@.link.state == L2capState::Open { Ok::<(), BluetoothError>(()) } else { Err(BluetoothError::NotConnected) },
    {
        let mut pn: Vec<u8> = Vec::new();
        pn.push(dlci);
        pn.push(0xE0);
        pn.push(0x00);
        pn.push(0x00);
        crate::wire::push_u16_le(&mut pn, self.mtu);
        pn.push(0x00);
        pn.push(7);
        assert(pn@ =~= seq![dlci, 0xE0u8, 0u8, 0u8] + le16(self.mtu) + seq![0u8, 7u8]);
        self.send_mcc(MccType::Pn, true, pn.as_slice())
    }

    /// Send MSC (Modem Status Command)
    fn send_msc(&mut self, dlci: u8, signals: &ModemSignals) -> (r: Result<(), BluetoothError>)
        ensures
            final(self)@ == (RfcommSessionView { link: sent(old(self)@.link, msc_bytes(old(self)@.initiator, dlci, *signals)), ..old(self)@ }),
            r == if old(self)@.link.state == L2capState::Open { Ok::<(), BluetoothError>(()) } else { Err(BluetoothError::NotConnected) },
    {
        let mut msc: Vec<u8> = Vec::new();
        msc.push((dlci << 2) | 0x03);
        msc.push(signals.to_byte());
        assert(msc@ =~= seq![(dlci << 2u8) | 3u8, modem_byte(*signals)]);
        self.send_mcc(MccType::Msc, true, msc.as_slice())
    }

    /// Open multiplexer: SABM on DLCI 0
    pub fn open_mux(&mut self) -> (r: Result<(), BluetoothError>)
        ensures
            final(self)@ == (RfcommSessionView { link: sent(old(self)@.link, sabm_bytes(0, old(self)@.initiator)), ..old(self)@ }),
            r == if old(self)@.link.state == L2capState::Open { Ok::<(), BluetoothError>(()) } else { Err(BluetoothError::NotConnected) },
    {
        let frame = RfcommFrame::sabm(0, self.initiator);
        self.send_ctrl(frame)
    }

    /// Index of the channel with `dlci`
    fn find_channel(&self, dlci: u8) -> (r: Option<usize>)
        ensures
            match r {
                Some(i) => i == find_dlci(self@.channels, dlci) && i < self@.channels.len(),
                None => find_dlci(self@.channels, dlci) < 0,
            },
    {
        proof {
            lemma_find_dlci(self@.channels, dlci);
        }
        let mut i: usize = self.channels.len();
        assert(self@.channels.take(i as int) =~= self@.channels);
        while i > 0
            invariant
                i <= self.channels@.len(),
                self@.channels.len() == self.channels@.len(),
                find_dlci(self@.channels, dlci) == find_dlci(self@.channels.take(i as int), dlci),
            decreases i,
        {
            assert(self@.channels.take(i as int).drop_last() =~= self@.channels.take(i - 1));
            if self.channels[i - 1].dlci == dlci {
                return Some(i - 1);
            }
            i = i - 1;
        }
        None
    }

    /// Get or create the channel with `dlci`; its index is returned
    fn get_or_create_channel(&mut self, dlci: u8) -> (r: usize)
        ensures
            final(self)@ == (RfcommSessionView { channels: with_channel(old(self)@.channels, dlci, old(self)@.initiator), ..old(self)@ }),
            r == find_dlci(final(self)@.channels, dlci),
            r < final(self)@.channels.len(),
    {
        match self.find_channel(dlci) {
            Some(i) => i,
            None => {
                let ghost before = self@;
                let ch = RfcommChannel::new(dlci, self.initiator);
                self.channels.push(ch);
                assert(self@.channels =~= before.channels.push(new_channel_view(dlci, before.initiator)));
                self.channels.len() - 1
            },
        }
    }

    /// Set the state of the channel at index `i`
    fn set_state_at(&mut self, i: usize, st: ChannelState)
        requires
            i < old(self)@.channels.len(),
        ensures
            final(self)@ == (RfcommSessionView {
                channels: old(self)@.channels.update(i as int, RfcommChannelView { state: st, ..old(self)@.channels[i as int] }),
                ..old(self)@
            }),
    {
        let mut ch = self.channels.remove(i);
        ch.set_state(st);
        self.channels.insert(i, ch);
        assert(self@.channels =~= old(self)@.channels.update(i as int, RfcommChannelView { state: st, ..old(self)@.channels[i as int] }));
    }

    /// Set the state of the channel with `dlci`, if there is one
    fn set_channel_state(&mut self, dlci: u8, st: ChannelState)
        ensures
            final(self)@ == (RfcommSessionView { channels: set_chan_state(old(self)@.channels, dlci, st), ..old(self)@ }),
    {
        match self.find_channel(dlci) {
            Some(i) => self.set_state_at(i, st),
            None => {},
        }
    }

    /// Close every channel
    fn close_all(&mut self)
        ensures
            final(self)@ == (RfcommSessionView { channels: all_closed(old(self)@.channels), ..old(self)@ }),
    {
        let n = self.channels.len();
        let mut i: usize = 0;
        while i < n
            invariant
                i <= n,
                n == old(self)@.channels.len(),
                self@ == (RfcommSessionView { channels: self@.channels, ..old(self)@ }),
                self@.channels.len() == n,
                forall|k: int| 0 <= k < i ==> #[trigger] self@.channels[k] == (RfcommChannelView { state: ChannelState::Closed, ..old(self)@.channels[k] }),
                forall|k: int| i <= k < n ==> #[trigger] self@.channels[k] == old(self)@.channels[k],
            decreases n - i,
        {
            self.set_state_at(i, ChannelState::Closed);
            i = i + 1;
        }
        assert(self@.channels =~= all_closed(old(self)@.channels));
    }

    /// Close multiplexer: DISC on DLCI 0, then every channel closes
    pub fn close_mux(&mut self) -> (r: Result<(), BluetoothError>)
        ensures
            old(self)@.link.state != L2capState::Open ==> r == Err::<(), BluetoothError>(BluetoothError::NotConnected)
                && final(self)@ == old(self)@,
            old(self)@.link.state == L2capState::Open ==> r == Ok::<(), BluetoothError>(()) && final(self)@ == (RfcommSessionView {
                link: sent(old(self)@.link, disc_bytes(0, old(self)@.initiator)),
                mux_open: false,
                channels: all_closed(old(self)@.channels),
                ..old(self)@
            }),
    {
        let frame = RfcommFrame::disc(0, self.initiator);
        match self.send_ctrl(frame) {
            Ok(()) => {},
            Err(e) => return Err(e),
        }
        self.mux_open = false;
        self.close_all();
        Ok(())
    }

    /// Open a channel to server channel `server_channel`: the channel is
    /// created, parameters negotiated, and it waits for the SABM exchange;
    /// its DLCI is returned
    pub fn open_channel(&mut self, server_channel: u8) -> (r: Result<u8, BluetoothError>)
        ensures
            ({
                let v = old(self)@;
                let d = dlci_for(server_channel, v.initiator);
                let cs = with_channel(v.channels, d, v.initiator);
                if !v.mux_open {
                    r == Err::<u8, BluetoothError>(BluetoothError::NotConnected) && final(self)@ == v
                } else if v.link.state != L2capState::Open {
                    r == Err::<u8, BluetoothError>(BluetoothError::NotConnected)
                        && final(self)@ == (RfcommSessionView { channels: cs, ..v })
                } else {
                    r == Ok::<u8, BluetoothError>(d) && final(self)@ == (RfcommSessionView {
                        channels: set_chan_state(cs, d, ChannelState::WaitSabm),
                        pending_pn: Some((d, RFCOMM_DEFAULT_MTU)),
                        link: sent(v.link, pn_bytes(v.initiator, d, v.mtu)),
                        ..v
                    })
                }
            }),
    {
        if !self.mux_open {
            return Err(BluetoothError::NotConnected);
        }
        let bit: u8 = if self.initiator { 0x00 } else { 0x01 };
        let dlci = (server_channel << 1) | bit;
        let i = self.get_or_create_channel(dlci);
        match self.send_pn(dlci) {
            Ok(()) => {},
            Err(e) => return Err(e),
        }
        self.pending_pn = Some((dlci, RFCOMM_DEFAULT_MTU));
        self.set_state_at(i, ChannelState::WaitSabm);
        Ok(dlci)
    }

    /// Close channel: it waits for the DISC acknowledgement
    pub fn close_channel(&mut self, dlci: u8) -> (r: Result<(), BluetoothError>)
        ensures
            ({
                let v = old(self)@;
                if find_dlci(v.channels, dlci) < 0 {
                    r is Ok && final(self)@ == v
                } else {
                    &&& final(self)@ == (RfcommSessionView {
                        channels: set_chan_state(v.channels, dlci, ChannelState::WaitDisc),
                        link: sent(v.link, disc_bytes(dlci, v.initiator)),
                        ..v
                    })
                    &&& r == if v.link.state == L2capState::Open { Ok::<(), BluetoothError>(()) } else { Err(BluetoothError::NotConnected) }
                }
            }),
    {
        match self.find_channel(dlci) {
            Some(i) => {
                self.set_state_at(i, ChannelState::WaitDisc);
                let frame = RfcommFrame::disc(dlci, self.initiator);
                self.send_ctrl(frame)
            },
            None => Ok(()),
        }
    }

    /// Get channel
    pub fn get_channel(&self, dlci: u8) -> (r: Option<&RfcommChannel>)
        ensures
            match r {
                Some(c) => find_dlci(self@.channels, dlci) >= 0 && c@ == self@.channels[find_dlci(self@.channels, dlci)],
                None => find_dlci(self@.channels, dlci) < 0,
            },
    {
        match self.find_channel(dlci) {
            Some(i) => Some(&self.channels[i]),
            None => None,
        }
    }
}

impl RfcommSession {
    /// Put `ch` back at index `i`
    fn reinsert(&mut self, i: usize, ch: RfcommChannel)
        requires
            i <= old(self)@.channels.len(),
        ensures
            final(self)@ == (RfcommSessionView { channels: old(self)@.channels.insert(i as int, ch@), ..old(self)@ }),
    {
        let ghost cv = ch@;
        self.channels.insert(i, ch);
        assert(self@.channels =~= old(self)@.channels.insert(i as int, cv));
    }

    /// Take the channel at index `i` out to modify it
    fn take_at(&mut self, i: usize) -> (r: RfcommChannel)
        requires
            i < old(self)@.channels.len(),
        ensures
            r@ == old(self)@.channels[i as int],
            final(self)@ == (RfcommSessionView { channels: old(self)@.channels.remove(i as int), ..old(self)@ }),
    {
        let r = self.channels.remove(i);
        assert(self@.channels =~= old(self)@.channels.remove(i as int));
        r
    }

    fn handle_sabm(&mut self, dlci: u8)
        ensures
            final(self)@ == on_sabm(old(self)@, dlci),
    {
        if dlci == 0 {
            self.mux_open = true;
            let ua = RfcommFrame::ua(0, self.initiator);
            let _ = self.send_ctrl(ua);
        } else {
            let i = self.get_or_create_channel(dlci);
            self.set_state_at(i, ChannelState::Open);
            let ua = RfcommFrame::ua(dlci, self.initiator);
            let _ = self.send_ctrl(ua);
            let _ = self.send_msc(dlci, &ModemSignals::ready());
        }
    }

    fn handle_ua(&mut self, dlci: u8)
        ensures
            final(self)@ == on_ua(old(self)@, dlci),
    {
        if dlci == 0 {
            self.mux_open = true;
        } else {
            match self.find_channel(dlci) {
                Some(i) => {
                    if self.channels[i].state() == ChannelState::WaitUa {
                        self.set_state_at(i, ChannelState::Open);
                        let _ = self.send_msc(dlci, &ModemSignals::ready());
                    }
                },
                None => {},
            }
        }
    }

    fn handle_dm(&mut self, dlci: u8)
        ensures
            final(self)@ == on_dm(old(self)@, dlci),
    {
        if dlci == 0 {
            self.mux_open = false;
        } else {
            self.set_channel_state(dlci, ChannelState::Closed);
        }
    }

    fn handle_disc(&mut self, dlci: u8)
        ensures
            final(self)@ == on_disc(old(self)@, dlci),
    {
        let ua = RfcommFrame::ua(dlci, self.initiator);
        let _ = self.send_ctrl(ua);
        if dlci == 0 {
            self.mux_open = false;
            self.close_all();
        } else {
            self.set_channel_state(dlci, ChannelState::Closed);
        }
    }

    /// Add credits to the channel with `dlci`, if there is one
    fn credit_channel(&mut self, dlci: u8, c: u8)
        ensures
            final(self)@ == (RfcommSessionView { channels: with_credits(old(self)@.channels, dlci, Some(c)), ..old(self)@ }),
    {
        match self.find_channel(dlci) {
            Some(i) => {
                let mut ch = self.take_at(i);
                ch.add_tx_credits(c);
                self.reinsert(i, ch);
                assert(self@.channels =~= old(self)@.channels.update(i as int, RfcommChannelView { tx_credits: old(self)@.channels[i as int].tx_credits.wrapping_add(c), ..old(self)@.channels[i as int] }));
            },
            None => {},
        }
    }

    /// Hand `data` to the channel with `dlci`, if there is one
    fn deliver(&mut self, dlci: u8, data: &[u8])
        ensures
            final(self)@ == (RfcommSessionView { channels: delivered(old(self)@.channels, dlci, data@), ..old(self)@ }),
    {
        match self.find_channel(dlci) {
            Some(i) => {
                let mut ch = self.take_at(i);
                ch.receive(data);
                self.reinsert(i, ch);
                assert(self@.channels =~= old(self)@.channels.update(i as int, received(old(self)@.channels[i as int], data@)));
            },
            None => {},
        }
    }

    fn handle_uih(&mut self, dlci: u8, credits: Option<u8>, data: &[u8])
        ensures
            final(self)@ == on_uih(old(self)@, dlci, credits, data@),
    {
        match credits {
            Some(c) => self.credit_channel(dlci, c),
            None => {},
        }
        if dlci == 0 {
            self.handle_mcc(data);
        } else {
            self.deliver(dlci, data);
        }
    }

    fn handle_rpn(&mut self, is_command: bool, data: &[u8])
        ensures
            final(self)@ == if is_command { replied(old(self)@, MccType::Rpn, data@) } else { old(self)@ },
    {
        if is_command {
            let _ = self.send_mcc(MccType::Rpn, false, data);
        }
    }

    fn handle_rls(&mut self, is_command: bool, data: &[u8])
        ensures
            final(self)@ == if is_command { replied(old(self)@, MccType::Rls, data@) } else { old(self)@ },
    {
        if is_command {
            let _ = self.send_mcc(MccType::Rls, false, data);
        }
    }

    fn handle_test(&mut self, is_command: bool, data: &[u8])
        ensures
            final(self)@ == if is_command { replied(old(self)@, MccType::Test, data@) } else { old(self)@ },
    {
        if is_command {
            let _ = self.send_mcc(MccType::Test, false, data);
        }
    }

    fn handle_fc_on(&mut self, is_command: bool)
        ensures
            final(self)@ == if is_command { replied(old(self)@, MccType::FcOn, Seq::empty()) } else { old(self)@ },
    {
        if is_command {
            let empty: [u8; 0] = [];
            assert(empty@ =~= Seq::<u8>::empty());
            let _ = self.send_mcc(MccType::FcOn, false, &empty);
        }
    }

    fn handle_fc_off(&mut self, is_command: bool)
        ensures
            final(self)@ == if is_command { replied(old(self)@, MccType::FcOff, Seq::empty()) } else { old(self)@ },
    {
        if is_command {
            let empty: [u8; 0] = [];
            assert(empty@ =~= Seq::<u8>::empty());
            let _ = self.send_mcc(MccType::FcOff, false, &empty);
        }
    }

    fn handle_pn(&mut self, is_command: bool, data: &[u8])
        ensures
            final(self)@ == on_pn(old(self)@, is_command, data@),
    {
        if data.len() < 8 {
            return;
        }
        let dlci = data[0] & 0x3F;
        let mtu = crate::wire::make_u16(data[4], data[5]);
        let credits = data[7];
        if is_command {
            let _ = self.send_mcc(MccType::Pn, false, data);
        } else {
            match self.pending_pn {
                Some(p) => {
                    if p.0 == dlci {
                        let i = self.get_or_create_channel(dlci);
                        let ghost v1 = self@;
                        let mut ch = self.take_at(i);
                        ch.mtu = mtu;
                        ch.add_tx_credits(credits);
                        ch.set_state(ChannelState::WaitUa);
                        self.reinsert(i, ch);
                        assert(self@.channels =~= v1.channels.update(i as int, RfcommChannelView {
                            mtu,
                            tx_credits: v1.channels[i as int].tx_credits.wrapping_add(credits),
                            state: ChannelState::WaitUa,
                            ..v1.channels[i as int]
                        }));
                        let sabm = RfcommFrame::sabm(dlci, self.initiator);
                        let _ = self.send_ctrl(sabm);
                    }
                },
                None => {},
            }
        }
    }

    /// Record the remote signals of the channel with `dlci`, if there is one
    fn set_remote_signals(&mut self, dlci: u8, signals: ModemSignals)
        ensures
            ({
                let i = find_dlci(old(self)@.channels, dlci);
                final(self)@ == (RfcommSessionView {
                    channels: if i < 0 { old(self)@.channels } else {
                        old(self)@.channels.update(i, RfcommChannelView { remote_signals: signals, ..old(self)@.channels[i] })
                    },
                    ..old(self)@
                })
            }),
    {
        match self.find_channel(dlci) {
            Some(i) => {
                let mut ch = self.take_at(i);
                ch.remote_signals = signals;
                self.reinsert(i, ch);
                assert(self@.channels =~= old(self)@.channels.update(i as int, RfcommChannelView { remote_signals: signals, ..old(self)@.channels[i as int] }));
            },
            None => {},
        }
    }

    fn handle_msc(&mut self, is_command: bool, data: &[u8])
        ensures
            final(self)@ == on_msc(old(self)@, is_command, data@),
    {
        if data.len() < 2 {
            return;
        }
        let dlci = (data[0] >> 2) & 0x3F;
        let signals = ModemSignals::from_byte(data[1]);
        assert(signals == signals_of(data@[1]));
        self.set_remote_signals(dlci, signals);
        if is_command {
            let _ = self.send_mcc(MccType::Msc, false, data);
        }
    }

    fn handle_mcc(&mut self, data: &[u8])
        ensures
            final(self)@ == on_mcc(old(self)@, data@),
    {
        if data.len() < 2 {
            return;
        }
        let type_byte = data[0];
        let is_command = (type_byte & 0x02) != 0;
        let mcc_type = MccType::from_byte(type_byte);
        let len = (data[1] >> 1) as usize;
        if data.len() < 2 + len {
            return;
        }
        let value_vec = copy_range(data, 2, 2 + len);
        let value = value_vec.as_slice();
        match mcc_type {
            Some(MccType::Pn) => self.handle_pn(is_command, value),
            Some(MccType::Msc) => self.handle_msc(is_command, value),
            Some(MccType::Rpn) => self.handle_rpn(is_command, value),
            Some(MccType::Rls) => self.handle_rls(is_command, value),
            Some(MccType::Test) => self.handle_test(is_command, value),
            Some(MccType::FcOn) => self.handle_fc_on(is_command),
            Some(MccType::FcOff) => self.handle_fc_off(is_command),
            _ => {
                if is_command {
                    let t: [u8; 1] = [type_byte];
                    assert(t@ =~= seq![type_byte]);
                    let _ = self.send_mcc(MccType::Nsc, false, &t);
                }
            },
        }
    }

    fn handle_frame(&mut self, frame: &RfcommFrame)
        ensures
            final(self)@ == on_frame(old(self)@, frame.address, frame.control, frame.credits, frame.data@),
    {
        let dlci = frame.dlci();
        match frame.frame_type() {
            Some(RfcommFrameType::Sabm) => self.handle_sabm(dlci),
            Some(RfcommFrameType::Ua) => self.handle_ua(dlci),
            Some(RfcommFrameType::Dm) => self.handle_dm(dlci),
            Some(RfcommFrameType::Disc) => self.handle_disc(dlci),
            Some(RfcommFrameType::Uih) => self.handle_uih(dlci, frame.credits, frame.data.as_slice()),
            Some(RfcommFrameType::UihCredits) => self.handle_uih(dlci, frame.credits, frame.data.as_slice()),
            None => {},
        }
    }

    /// Handle incoming L2CAP data: a whole frame is handled, anything else
    /// ignored
    pub fn handle_data(&mut self, data: &[u8])
        ensures
            final(self)@ == on_data(old(self)@, data@),
    {
        match RfcommFrame::from_bytes(data) {
            Some(frame) => self.handle_frame(&frame),
            None => {},
        }
    }
}

/// The receive credits granted with data sent on channel `c`: seven when
/// flow control is on and fewer than three are left.
pub open spec fn credit_grant(c: RfcommChannelView) -> Option<u8> {
    if c.credit_flow && c.rx_credits < 3 { Some(7u8) } else { None }
}

/// Channel `c` after data is sent on it: one send credit used and the
/// grant added to its receive credits, when flow control is on.
pub open spec fn after_send(c: RfcommChannelView) -> RfcommChannelView {
    if c.credit_flow {
        RfcommChannelView {
            tx_credits: (c.tx_credits - 1) as u8,
            rx_credits: if c.rx_credits < 3 { c.rx_credits.wrapping_add(7) } else { c.rx_credits },
            ..c
        }
    } else {
        c
    }
}

/// The UIH frames that carry `data` on `dlci`, one per piece of `mtu` bytes.
pub open spec fn data_frames(dlci: u8, initiator: bool, data: Seq<u8>, mtu: u16, grant: Option<u8>) -> Seq<Seq<u8>> {
    chunks_of(data, mtu as nat).map_values(|p: Seq<u8>| uih_frame(dlci, initiator, p, grant))
}

impl RfcommSession {
    /// Use the credits for sending on the channel at index `i`; the grant
    /// to announce is returned
    fn spend_credits_at(&mut self, i: usize) -> (r: Option<u8>)
        requires
            i < old(self)@.channels.len(),
            old(self)@.channels[i as int].credit_flow ==> old(self)@.channels[i as int].tx_credits >= 1,
        ensures
            r == credit_grant(old(self)@.channels[i as int]),
            final(self)@ == (RfcommSessionView { channels: old(self)@.channels.update(i as int, after_send(old(self)@.channels[i as int])), ..old(self)@ }),
    {
        let mut ch = self.take_at(i);
        let mut grant: Option<u8> = None;
        if ch.credit_flow {
            let _ = ch.consume_tx_credit();
            if ch.rx_credits() < 3 {
                grant = Some(ch.grant_rx_credits(7));
            }
        }
        self.reinsert(i, ch);
        assert(self@.channels =~= old(self)@.channels.update(i as int, after_send(old(self)@.channels[i as int])));
        grant
    }

    /// Send data on channel `dlci`: UIH frames of at most the channel's MTU,
    /// each announcing the receive credits granted
    pub fn send_data(&mut self, dlci: u8, data: &[u8]) -> (r: Result<(), BluetoothError>)
        requires
            data_may_flow(old(self)@, dlci) ==> old(self)@.channels[find_dlci(old(self)@.channels, dlci)].mtu > 0,
        ensures
            ({
                let v = old(self)@;
                let i = find_dlci(v.channels, dlci);
                if i < 0 {
                    r == Err::<(), BluetoothError>(BluetoothError::NotFound) && final(self)@ == v
                } else if v.channels[i].state != ChannelState::Open {
                    r == Err::<(), BluetoothError>(BluetoothError::NotConnected) && final(self)@ == v
                } else if v.channels[i].credit_flow && v.channels[i].tx_credits < 1 {
                    r == Err::<(), BluetoothError>(BluetoothError::WouldBlock) && final(self)@ == v
                } else {
                    let c = v.channels[i];
                    let frames = data_frames(dlci, v.initiator, data@, c.mtu, credit_grant(c));
                    &&& final(self)@ == (RfcommSessionView {
                        channels: v.channels.update(i, after_send(c)),
                        link: sent_all(v.link, frames),
                        ..v
                    })
                    &&& r == if v.link.state == L2capState::Open || frames.len() == 0 {
                        Ok::<(), BluetoothError>(())
                    } else {
                        Err(BluetoothError::NotConnected)
                    }
                }
            }),
    {
        proof {
            lemma_find_dlci(self@.channels, dlci);
        }
        let i = match self.find_channel(dlci) {
            Some(i) => i,
            None => return Err(BluetoothError::NotFound),
        };
        if self.channels[i].state() != ChannelState::Open {
            return Err(BluetoothError::NotConnected);
        }
        if self.channels[i].credit_flow && self.channels[i].tx_credits() < 1 {
            return Err(BluetoothError::WouldBlock);
        }
        let mtu = self.channels[i].mtu;
        let credits = self.spend_credits_at(i);
        let chunks = split_chunks(data, mtu as usize);
        let ghost mid = self@;
        let ghost frames = data_frames(dlci, old(self)@.initiator, data@, mtu, credits);
        assert(chunks@.len() == frames.len());
        let mut j: usize = 0;
        assert(frames.take(0) =~= Seq::<Seq<u8>>::empty());
        assert(mid.link.tx_buffer + frames.take(0) =~= mid.link.tx_buffer);
        while j < chunks.len()
            invariant
                j <= chunks@.len(),
                chunks@.len() == frames.len(),
                forall|k: int| 0 <= k < chunks@.len() ==> #[trigger] frames[k] == uih_frame(dlci, mid.initiator, chunks@[k]@, credits),
                mid.initiator == self.initiator,
                i == find_dlci(old(self)@.channels, dlci),
                0 <= i < old(self)@.channels.len(),
                old(self)@.channels[i as int].state == ChannelState::Open,
                !(old(self)@.channels[i as int].credit_flow && old(self)@.channels[i as int].tx_credits < 1),
                frames == data_frames(dlci, old(self)@.initiator, data@, old(self)@.channels[i as int].mtu,
                    credit_grant(old(self)@.channels[i as int])),
                mid == (RfcommSessionView { channels: old(self)@.channels.update(i as int, after_send(old(self)@.channels[i as int])), ..old(self)@ }),
                self@.link.state == mid.link.state,
                j > 0 ==> mid.link.state == L2capState::Open,
                self@ == (RfcommSessionView { link: sent_all(mid.link, frames.take(j as int)), ..mid }),
            decreases chunks@.len() - j,
        {
            let piece = vstd::slice::slice_to_vec(chunks[j].as_slice());
            let frame = RfcommFrame::uih(dlci, self.initiator, piece, credits);
            match self.send_frame(&frame) {
                Ok(()) => {},
                Err(e) => {
                    assert(mid.link.state != L2capState::Open);
                    assert(self@ == (RfcommSessionView { link: sent_all(mid.link, frames), ..mid }));
                    assert(frames.len() > 0);
                    assert(e == BluetoothError::NotConnected);

                    return Err(e);
                },
            }
            assert(frames.take(j + 1) =~= frames.take(j as int).push(frames[j as int]));
            j = j + 1;
        }
        assert(frames.take(j as int) =~= frames);
        Ok(())
    }
}

/// Index of the session of connection `h`, or -1.
pub open spec fn find_handle(s: Seq<(u16, RfcommSessionView)>, h: u16) -> int
    decreases s.len(),
{
    if s.len() == 0 {
        -1
    } else if s.last().0 == h {
        s.len() - 1
    } else {
        find_handle(s.drop_last(), h)
    }
}

/// The index `find_handle` gives is that of a session of the connection.
pub proof fn lemma_find_handle(s: Seq<(u16, RfcommSessionView)>, h: u16)
    ensures
        -1 <= find_handle(s, h) < s.len(),
        find_handle(s, h) >= 0 ==> s[find_handle(s, h)].0 == h,
    decreases s.len(),
{
    if s.len() > 0 {
        lemma_find_handle(s.drop_last(), h);
    }
}

/// Two session lists with the same handles at the same places find a
/// handle at the same index.
pub proof fn lemma_find_handle_same(s: Seq<(u16, RfcommSessionView)>, t: Seq<(u16, RfcommSessionView)>, h: u16)
    requires
        s.len() == t.len(),
        forall|k: int| 0 <= k < s.len() ==> #[trigger] s[k].0 == t[k].0,
    ensures
        find_handle(s, h) == find_handle(t, h),
    decreases s.len(),
{
    if s.len() > 0 {
        assert forall|k: int| 0 <= k < s.len() - 1 implies #[trigger] s.drop_last()[k].0 == t.drop_last()[k].0 by {
            assert(s[k].0 == t[k].0);
        }
        lemma_find_handle_same(s.drop_last(), t.drop_last(), h);
    }
}

/// The sessions with `sv` as the session of connection `h`, replacing the
/// one it had.
pub open spec fn put_session(s: Seq<(u16, RfcommSessionView)>, h: u16, sv: RfcommSessionView) -> Seq<(u16, RfcommSessionView)> {
    let i = find_handle(s, h);
    if i < 0 { s.push((h, sv)) } else { s.update(i, (h, sv)) }
}

/// The server channels in `s` other than `c`.
pub open spec fn without_channel(s: Seq<u8>, c: u8) -> Seq<u8>
    decreases s.len(),
{
    if s.len() == 0 {
        s
    } else if s.last() == c {
        without_channel(s.drop_last(), c)
    } else {
        without_channel(s.drop_last(), c).push(s.last())
    }
}

/// The DLCIs of the open channels whose server channel has a handler, in
/// the order the channels were created.
pub open spec fn notified(chs: Seq<RfcommChannelView>, registered: Seq<u8>) -> Seq<u8>
    decreases chs.len(),
{
    if chs.len() == 0 {
        Seq::empty()
    } else if chs.last().state == ChannelState::Open && registered.contains(chs.last().channel) {
        notified(chs.drop_last(), registered).push(chs.last().dlci)
    } else {
        notified(chs.drop_last(), registered)
    }
}

/// What the server holds.
pub struct RfcommServerView {
    /// Server channels with a handler
    pub channels: Seq<u8>,
    /// Sessions by connection handle
    pub sessions: Seq<(u16, RfcommSessionView)>,
}

/// RFCOMM server for listening on channels. Handlers are not stored: the
/// server reports which channels opened for a registered server channel,
/// and the caller runs its handler for them.
pub struct RfcommServer {
    channels: Vec<u8>,
    sessions: Vec<(u16, RfcommSession)>,
}

impl View for RfcommServer {
    type V = RfcommServerView;

    closed spec fn view(&self) -> RfcommServerView {
        RfcommServerView {
            channels: self.channels@,
            sessions: session_views(self.sessions@),
        }
    }
}

/// The sessions of a list, by their views.
pub open spec fn session_views(s: Seq<(u16, RfcommSession)>) -> Seq<(u16, RfcommSessionView)> {
    s.map_values(|p: (u16, RfcommSession)| (p.0, p.1@))
}

/// Find the session of connection `h` in a list of sessions.
fn find_session(sessions: &Vec<(u16, RfcommSession)>, h: u16) -> (r: Option<usize>)
    ensures
        match r {
            Some(i) => i == find_handle(session_views(sessions@), h) && i < sessions@.len() && sessions@[i as int].0 == h,
            None => find_handle(session_views(sessions@), h) < 0,
        },
{
    let ghost s = session_views(sessions@);
    proof {
        lemma_find_handle(s, h);
    }
    let mut i: usize = sessions.len();
    assert(s.take(i as int) =~= s);
    while i > 0
        invariant
            i <= sessions@.len(),
            s == session_views(sessions@),
            find_handle(s, h) == find_handle(s.take(i as int), h),
        decreases i,
    {
        assert(s.take(i as int).drop_last() =~= s.take(i - 1));
        if sessions[i - 1].0 == h {
            return Some(i - 1);
        }
        i = i - 1;
    }
    None
}

/// Take the session at index `i` out of a list.
fn take_session(sessions: &mut Vec<(u16, RfcommSession)>, i: usize) -> (r: (u16, RfcommSession))
    requires
        i < old(sessions)@.len(),
    ensures
        (r.0, r.1@) == session_views(old(sessions)@)[i as int],
        r.0 == old(sessions)@[i as int].0,
        r.1@ == session_views(old(sessions)@)[i as int].1,
        final(sessions)@.len() == old(sessions)@.len() - 1,
        session_views(final(sessions)@) == session_views(old(sessions)@).remove(i as int),
{
    let r = sessions.remove(i);
    assert(session_views(sessions@) =~= session_views(old(sessions)@).remove(i as int));
    r
}

/// Put a session into a list at index `i`.
fn insert_session(sessions: &mut Vec<(u16, RfcommSession)>, i: usize, p: (u16, RfcommSession))
    requires
        i <= old(sessions)@.len(),
    ensures
        final(sessions)@.len() == old(sessions)@.len() + 1,
        session_views(final(sessions)@) == session_views(old(sessions)@).insert(i as int, (p.0, p.1@)),
{
    let ghost pv = (p.0, p.1@);
    sessions.insert(i, p);
    assert(session_views(sessions@) =~= session_views(old(sessions)@).insert(i as int, pv));
}

impl RfcommServer {
    /// Create new RFCOMM server; the RFCOMM PSM is registered with L2CAP
    pub fn new(l2cap: &mut L2capManager) -> (r: Self)
        ensures
            r@.channels == Seq::<u8>::empty(),
            r@.sessions == Seq::<(u16, RfcommSessionView)>::empty(),
            final(l2cap)@ == (L2capManagerView {
                psms: if old(l2cap)@.psms.contains(L2CAP_PSM_RFCOMM) { old(l2cap)@.psms } else { old(l2cap)@.psms.push(L2CAP_PSM_RFCOMM) },
                ..old(l2cap)@
            }),
    {
        l2cap.register_psm(L2CAP_PSM_RFCOMM);
        let r = RfcommServer { channels: Vec::new(), sessions: Vec::new() };
        assert(r@.sessions =~= Seq::<(u16, RfcommSessionView)>::empty());
        r
    }

    /// Register server channel `channel` (1 to 30; others are ignored)
    pub fn register(&mut self, channel: u8)
        ensures
            final(self)@ == (RfcommServerView {
                channels: if 1 <= channel <= RFCOMM_MAX_CHANNELS && !old(self)@.channels.contains(channel) {
                    old(self)@.channels.push(channel)
                } else {
                    old(self)@.channels
                },
                ..old(self)@
            }),
    {
        if channel >= 1 && channel <= RFCOMM_MAX_CHANNELS {
            let mut i: usize = 0;
            while i < self.channels.len()
                invariant
                    i <= self.channels@.len(),
                    self@ == old(self)@,
                    forall|k: int| 0 <= k < i ==> self.channels@[k] != channel,
                decreases self.channels@.len() - i,
            {
                if self.channels[i] == channel {
                    return;
                }
                i = i + 1;
            }
            self.channels.push(channel);
        }
    }

    /// Unregister server channel `channel`
    pub fn unregister(&mut self, channel: u8)
        ensures
            final(self)@ == (RfcommServerView { channels: without_channel(old(self)@.channels, channel), ..old(self)@ }),
    {
        let mut kept: Vec<u8> = Vec::new();
        let mut i: usize = 0;
        assert(self.channels@.take(0) =~= Seq::<u8>::empty());
        while i < self.channels.len()
            invariant
                i <= self.channels@.len(),
                self@ == old(self)@,
                kept@ == without_channel(self.channels@.take(i as int), channel),
            decreases self.channels@.len() - i,
        {
            assert(self.channels@.take(i + 1).drop_last() =~= self.channels@.take(i as int));
            if self.channels[i] != channel {
                kept.push(self.channels[i]);
            }
            i = i + 1;
        }
        assert(self.channels@.take(i as int) =~= self.channels@);
        self.channels = kept;
    }

    /// Handle an incoming L2CAP connection: a session (as responder) is
    /// made for its connection handle
    pub fn handle_connection(&mut self, l2cap_channel: L2capChannel)
        ensures
            final(self)@ == (RfcommServerView {
                sessions: put_session(old(self)@.sessions, l2cap_channel@.handle, RfcommSessionView {
                    link: l2cap_channel@,
                    initiator: false,
                    mux_open: false,
                    channels: Seq::empty(),
                    pending_pn: None,
                    mtu: RFCOMM_DEFAULT_MTU,
                    credit_flow: true,
                }),
                ..old(self)@
            }),
    {
        let handle = l2cap_channel.connection_handle();
        let session = RfcommSession::new(l2cap_channel, false);
        let ghost sv = session@;
        match find_session(&self.sessions, handle) {
            Some(i) => {
                let _ = self.sessions.remove(i);
                self.sessions.insert(i, (handle, session));
                assert(self@.sessions =~= old(self)@.sessions.update(i as int, (handle, sv)));
            },
            None => {
                self.sessions.push((handle, session));
                assert(self@.sessions =~= old(self)@.sessions.push((handle, sv)));
            },
        }
    }

    /// The DLCIs of the open channels of connection `handle` whose server
    /// channel has a handler
    pub fn check_new_channels(&self, handle: u16) -> (r: Vec<u8>)
        ensures
            ({
                let i = find_handle(self@.sessions, handle);
                r@ == if i < 0 { Seq::empty() } else { notified(self@.sessions[i].1.channels, self@.channels) }
            }),
    {
        let mut out: Vec<u8> = Vec::new();
        match find_session(&self.sessions, handle) {
            Some(i) => {
                let session = &self.sessions[i].1;
                let ghost chs = session@.channels;
                let mut k: usize = 0;
                assert(chs.take(0) =~= Seq::<RfcommChannelView>::empty());
                while k < session.channels.len()
                    invariant
                        k <= session.channels@.len(),
                        chs == session@.channels,
                        out@ == notified(chs.take(k as int), self@.channels),
                    decreases session.channels@.len() - k,
                {
                    assert(chs.take(k + 1).drop_last() =~= chs.take(k as int));
                    let ch = &session.channels[k];
                    if ch.state() == ChannelState::Open {
                        let mut j: usize = 0;
                        let mut found = false;
                        while j < self.channels.len()
                            invariant
                                j <= self.channels@.len(),
                                found == exists|m: int| 0 <= m < j && self.channels@[m] == ch.channel,
                            decreases self.channels@.len() - j,
                        {
                            if self.channels[j] == ch.channel {
                                found = true;
                            }
                            j = j + 1;
                        }
                        if found {
                            out.push(ch.dlci);
                        }
                    }
                    k = k + 1;
                }
                assert(chs.take(k as int) =~= chs);
            },
            None => {},
        }
        out
    }

    /// Hand `data` to the session at index `i`
    fn feed_session(&mut self, i: usize, data: &[u8])
        requires
            i < old(self)@.sessions.len(),
        ensures
            final(self)@ == (RfcommServerView {
                sessions: old(self)@.sessions.update(i as int, (old(self)@.sessions[i as int].0, on_data(old(self)@.sessions[i as int].1, data@))),
                ..old(self)@
            }),
    {
        let (h, mut session) = take_session(&mut self.sessions, i);
        session.handle_data(data);
        let ghost sv = session@;
        insert_session(&mut self.sessions, i, (h, session));
        assert(self@.sessions =~= old(self)@.sessions.update(i as int, (h, sv)));
    }

    /// Handle data that arrived on the L2CAP channel of connection `handle`;
    /// the DLCIs of the open channels with a handler are returned
    pub fn handle_data(&mut self, handle: u16, data: &[u8]) -> (r: Vec<u8>)
        ensures
            ({
                let i = find_handle(old(self)@.sessions, handle);
                &&& final(self)@ == if i < 0 { old(self)@ } else {
                    RfcommServerView {
                        sessions: old(self)@.sessions.update(i, (handle, on_data(old(self)@.sessions[i].1, data@))),
                        ..old(self)@
                    }
                }
                &&& r@ == if i < 0 { Seq::empty() } else { notified(on_data(old(self)@.sessions[i].1, data@).channels, old(self)@.channels) }
            }),
    {
        match find_session(&self.sessions, handle) {
            Some(i) => {
                self.feed_session(i, data);
                proof {
                    lemma_find_handle_same(self@.sessions, old(self)@.sessions, handle);
                }
                self.check_new_channels(handle)
            },
            None => Vec::new(),
        }
    }
}

/// What the client holds.
pub struct RfcommClientView {
    /// Sessions by connection handle
    pub sessions: Seq<(u16, RfcommSessionView)>,
}

/// RFCOMM client for connecting to remote services
pub struct RfcommClient {
    sessions: Vec<(u16, RfcommSession)>,
}

impl View for RfcommClient {
    type V = RfcommClientView;

    closed spec fn view(&self) -> RfcommClientView {
        RfcommClientView { sessions: session_views(self.sessions@) }
    }
}

/// The session a client makes for a new connection: initiator, over an
/// L2CAP channel waiting for the connection response.
pub open spec fn client_session(cid: u16, handle: u16) -> RfcommSessionView {
    RfcommSessionView {
        link: L2capChannelView { state: L2capState::WaitConnectRsp, ..new_link_view(cid, handle, L2CAP_PSM_RFCOMM, false) },
        initiator: true,
        mux_open: false,
        channels: Seq::empty(),
        pending_pn: None,
        mtu: RFCOMM_DEFAULT_MTU,
        credit_flow: true,
    }
}

impl RfcommClient {
    /// Create new RFCOMM client
    pub fn new() -> (r: Self)
        ensures
            r@.sessions == Seq::<(u16, RfcommSessionView)>::empty(),
    {
        let r = RfcommClient { sessions: Vec::new() };
        assert(r@.sessions =~= Seq::<(u16, RfcommSessionView)>::empty());
        r
    }

    /// Connect to remote RFCOMM channel `server_channel` on connection
    /// `handle`: a session is made (with an L2CAP connection) when there is
    /// none, the multiplexer opened if it is not, and the channel opened;
    /// its DLCI is returned
    pub fn connect(&mut self, l2cap: &mut L2capManager, handle: u16, server_channel: u8) -> (r: Result<u8, BluetoothError>)
        requires
            manager_wf(old(l2cap)@),
        ensures
            manager_wf(final(l2cap)@),
            ({
                let i = find_handle(old(self)@.sessions, handle);
                if i < 0 {
                    &&& final(l2cap)@ == connected_on(old(l2cap)@, handle, L2CAP_PSM_RFCOMM)
                    &&& final(self)@.sessions == old(self)@.sessions.push((handle, client_session(old(l2cap)@.next_cid, handle)))
                    &&& r == Err::<u8, BluetoothError>(BluetoothError::NotConnected)
                } else {
                    let sv = old(self)@.sessions[i].1;
                    &&& final(l2cap)@ == old(l2cap)@
                    &&& if !sv.mux_open {
                        &&& final(self)@.sessions == old(self)@.sessions.update(i, (handle, RfcommSessionView { link: sent(sv.link, sabm_bytes(0, sv.initiator)), ..sv }))
                        &&& r == Err::<u8, BluetoothError>(BluetoothError::NotConnected)
                    } else {
                        let d = dlci_for(server_channel, sv.initiator);
                        let cs = with_channel(sv.channels, d, sv.initiator);
                        if sv.link.state != L2capState::Open {
                            &&& final(self)@.sessions == old(self)@.sessions.update(i, (handle, RfcommSessionView { channels: cs, ..sv }))
                            &&& r == Err::<u8, BluetoothError>(BluetoothError::NotConnected)
                        } else {
                            &&& final(self)@.sessions == old(self)@.sessions.update(i, (handle, RfcommSessionView {
                                channels: set_chan_state(cs, d, ChannelState::WaitSabm),
                                pending_pn: Some((d, RFCOMM_DEFAULT_MTU)),
                                link: sent(sv.link, pn_bytes(sv.initiator, d, sv.mtu)),
                                ..sv
                            }))
                            &&& r == Ok::<u8, BluetoothError>(d)
                        }
                    }
                }
            }),
    {
        match find_session(&self.sessions, handle) {
            None => self.connect_new(l2cap, handle),
            Some(i) => self.connect_existing(i, server_channel),
        }
    }

    /// Make a session for connection `handle`, with an L2CAP connection
    fn connect_new(&mut self, l2cap: &mut L2capManager, handle: u16) -> (r: Result<u8, BluetoothError>)
        requires
            manager_wf(old(l2cap)@),
        ensures
            manager_wf(final(l2cap)@),
            final(l2cap)@ == connected_on(old(l2cap)@, handle, L2CAP_PSM_RFCOMM),
            final(self)@.sessions == old(self)@.sessions.push((handle, client_session(old(l2cap)@.next_cid, handle))),
            r == Err::<u8, BluetoothError>(BluetoothError::NotConnected),
    {
        let cid = match l2cap.connect(handle, L2CAP_PSM_RFCOMM) {
            Ok(c) => c,
            Err(e) => return Err(e),
        };
        let mut link = L2capChannel::new(cid, handle, L2CAP_PSM_RFCOMM, false);
        link.set_state(L2capState::WaitConnectRsp);
        let mut session = RfcommSession::new(link, true);
        let _ = session.open_mux();
        let ghost sv = session@;
        assert(sv == client_session(old(l2cap)@.next_cid, handle));
        let n = self.sessions.len();
        insert_session(&mut self.sessions, n, (handle, session));
        assert(self@.sessions =~= old(self)@.sessions.push((handle, sv)));
        Err(BluetoothError::NotConnected)
    }

    /// Open the multiplexer, or the channel, on the session at index `i`
    fn connect_existing(&mut self, i: usize, server_channel: u8) -> (r: Result<u8, BluetoothError>)
        requires
            i < old(self)@.sessions.len(),
        ensures
            ({
                let (handle, sv) = old(self)@.sessions[i as int];
                if !sv.mux_open {
                    &&& final(self)@.sessions == old(self)@.sessions.update(i as int, (handle, RfcommSessionView { link: sent(sv.link, sabm_bytes(0, sv.initiator)), ..sv }))
                    &&& r == Err::<u8, BluetoothError>(BluetoothError::NotConnected)
                } else {
                    let d = dlci_for(server_channel, sv.initiator);
                    let cs = with_channel(sv.channels, d, sv.initiator);
                    if sv.link.state != L2capState::Open {
                        &&& final(self)@.sessions == old(self)@.sessions.update(i as int, (handle, RfcommSessionView { channels: cs, ..sv }))
                        &&& r == Err::<u8, BluetoothError>(BluetoothError::NotConnected)
                    } else {
                        &&& final(self)@.sessions == old(self)@.sessions.update(i as int, (handle, RfcommSessionView {
                            channels: set_chan_state(cs, d, ChannelState::WaitSabm),
                            pending_pn: Some((d, RFCOMM_DEFAULT_MTU)),
                            link: sent(sv.link, pn_bytes(sv.initiator, d, sv.mtu)),
                            ..sv
                        }))
                        &&& r == Ok::<u8, BluetoothError>(d)
                    }
                }
            }),
    {
        let (h, mut session) = take_session(&mut self.sessions, i);
        let result: Result<u8, BluetoothError>;
        if !session.is_mux_open() {
            let _ = session.open_mux();
            result = Err(BluetoothError::NotConnected);
        } else {
            result = session.open_channel(server_channel);
        }
        let ghost sv = session@;
        insert_session(&mut self.sessions, i, (h, session));
        assert(self@.sessions =~= old(self)@.sessions.update(i as int, (h, sv)));
        result
    }

    /// Disconnect session: it is dropped and its multiplexer closed
    pub fn disconnect(&mut self, handle: u16) -> (r: Result<(), BluetoothError>)
        ensures
            ({
                let i = find_handle(old(self)@.sessions, handle);
                if i < 0 {
                    r is Ok && final(self)@ == old(self)@
                } else {
                    &&& final(self)@.sessions == old(self)@.sessions.remove(i)
                    &&& r == if old(self)@.sessions[i].1.link.state == L2capState::Open { Ok::<(), BluetoothError>(()) } else { Err(BluetoothError::NotConnected) }
                }
            }),
    {
        match find_session(&self.sessions, handle) {
            Some(i) => {
                let (_h, mut session) = take_session(&mut self.sessions, i);
                assert(session@ == old(self)@.sessions[i as int].1);
                assert(self@.sessions == old(self)@.sessions.remove(i as int));
                let r = session.close_mux();
                assert(r == if old(self)@.sessions[i as int].1.link.state == L2capState::Open { Ok::<(), BluetoothError>(()) } else { Err(BluetoothError::NotConnected) });
                r
            },
            None => Ok(()),
        }
    }
}

} // verus!
