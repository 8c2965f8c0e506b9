//! The SMP manager: the pairing sessions of all connections, the packets
//! they exchange on the SMP fixed channel, and the bonds that complete
//! pairings leave.
use vstd::prelude::*;
use super::{arr16, arr32, arr6, auth_req_byte, copy16, copy32, copy6, fresh_session, pairing_bytes, pairing_method, params_of,
    zero16, zero32, zeros16, zeros32, AuthReq, Csrk, Irk, IoCapability, KeyDist, Ltk, PairingMethod, PairingState, SecurityKeys,
    SmpCode, SmpError, SmpSession};
use crate::bluetooth::{BdAddr, BluetoothError};
use crate::bluetooth::hid::device::addr_value;
use crate::bluetooth::l2cap::{L2capChannelView, L2capState, L2CAP_CID_SMP};
use crate::bluetooth::l2cap::manager::{find_fixed, lemma_find_fixed, L2capManager, L2capManagerView};
use crate::wire::{bit_set, copy_range, from_le16, le16, le64, le_value};

verus! {

/// The bonded addresses rise strictly.
pub open spec fn bonds_sorted(s: Seq<(BdAddr, SecurityKeys)>) -> bool {
    forall|i: int, j: int| 0 <= i < j < s.len() ==> #[trigger] addr_value(s[i].0) < #[trigger] addr_value(s[j].0)
}

/// Index of the bond with address value `k`, or -1.
pub open spec fn find_bond(s: Seq<(BdAddr, SecurityKeys)>, k: nat) -> int
    decreases s.len(),
{
    if s.len() == 0 {
        -1
    } else if addr_value(s.last().0) == k {
        s.len() - 1
    } else {
        find_bond(s.drop_last(), k)
    }
}

/// Index of the first bond whose address is not below `k`.
pub open spec fn bond_lower_bound(s: Seq<(BdAddr, SecurityKeys)>, k: nat) -> int
    decreases s.len(),
{
    if s.len() == 0 || addr_value(s.last().0) < k {
        s.len() as int
    } else {
        bond_lower_bound(s.drop_last(), k)
    }
}

/// The bonds with `d` put in under its address, replacing one there.
pub open spec fn insert_bond(s: Seq<(BdAddr, SecurityKeys)>, d: (BdAddr, SecurityKeys)) -> Seq<(BdAddr, SecurityKeys)> {
    let k = addr_value(d.0);
    let i = find_bond(s, k);
    if i >= 0 { s.update(i, d) } else { s.insert(bond_lower_bound(s, k), d) }
}

proof fn lemma_find_bond(s: Seq<(BdAddr, SecurityKeys)>, k: nat)
    ensures
        -1 <= find_bond(s, k) < s.len(),
        find_bond(s, k) >= 0 ==> addr_value(s[find_bond(s, k)].0) == k,
        find_bond(s, k) < 0 ==> forall|m: int| 0 <= m < s.len() ==> addr_value(#[trigger] s[m].0) != k,
    decreases s.len(),
{
    if s.len() > 0 && addr_value(s.last().0) != k {
        lemma_find_bond(s.drop_last(), k);
        assert forall|m: int| 0 <= m < s.len() - 1 implies #[trigger] s[m].0 == s.drop_last()[m].0 by {}
    }
}

proof fn lemma_bond_lower_bound(s: Seq<(BdAddr, SecurityKeys)>, k: nat)
    requires
        bonds_sorted(s),
    ensures
        0 <= bond_lower_bound(s, k) <= s.len(),
        forall|m: int| 0 <= m < bond_lower_bound(s, k) ==> addr_value(#[trigger] s[m].0) < k,
        forall|m: int| bond_lower_bound(s, k) <= m < s.len() ==> addr_value(#[trigger] s[m].0) >= k,
    decreases s.len(),
{
    if s.len() > 0 && addr_value(s.last().0) >= k {
        assert(bonds_sorted(s.drop_last()));
        lemma_bond_lower_bound(s.drop_last(), k);
        assert forall|m: int| 0 <= m < bond_lower_bound(s, k) implies addr_value(#[trigger] s[m].0) < k by {
            assert(s[m].0 == s.drop_last()[m].0);
        }
        assert forall|m: int| bond_lower_bound(s, k) <= m < s.len() implies addr_value(#[trigger] s[m].0) >= k by {
            if m < s.len() - 1 {
                assert(s[m].0 == s.drop_last()[m].0);
            }
        }
    } else if s.len() > 0 {
        assert forall|m: int| 0 <= m < s.len() implies addr_value(#[trigger] s[m].0) < k by {
            if m < s.len() - 1 {
                assert(addr_value(s[m].0) < addr_value(s.last().0));
            }
        }
    }
}

proof fn lemma_insert_bond_sorted(s: Seq<(BdAddr, SecurityKeys)>, d: (BdAddr, SecurityKeys))
    requires
        bonds_sorted(s),
    ensures
        bonds_sorted(insert_bond(s, d)),
{
    let k = addr_value(d.0);
    lemma_find_bond(s, k);
    lemma_bond_lower_bound(s, k);
    let r = insert_bond(s, d);
    if find_bond(s, k) < 0 {
        let p = bond_lower_bound(s, k);
        assert forall|i: int, j: int| 0 <= i < j < r.len() implies #[trigger] addr_value(r[i].0) < #[trigger] addr_value(
            r[j].0,
        ) by {
            if j < p {
            } else if j == p {
            } else if i < p {
                assert(r[j] == s[j - 1]);
            } else if i == p {
                assert(r[j] == s[j - 1]);
            } else {
                assert(r[i] == s[i - 1] && r[j] == s[j - 1]);
            }
        }
    } else {
        let i0 = find_bond(s, k);
        assert forall|i: int, j: int| 0 <= i < j < r.len() implies #[trigger] addr_value(r[i].0) < #[trigger] addr_value(
            r[j].0,
        ) by {
            assert(addr_value(r[i].0) == addr_value(s[i].0));
            assert(addr_value(r[j].0) == addr_value(s[j].0));
        }
    }
}

proof fn lemma_remove_bond_sorted(s: Seq<(BdAddr, SecurityKeys)>, i: int)
    requires
        bonds_sorted(s),
        0 <= i < s.len(),
    ensures
        bonds_sorted(s.remove(i)),
{
    let r = s.remove(i);
    assert forall|a: int, b: int| 0 <= a < b < r.len() implies #[trigger] addr_value(r[a].0) < #[trigger] addr_value(
        r[b].0,
    ) by {
        let a2 = if a < i { a } else { a + 1 };
        let b2 = if b < i { b } else { b + 1 };
        assert(r[a] == s[a2] && r[b] == s[b2]);
    }
}

/// What a pairing has to tell the user of the manager.
#[derive(Clone, Copy, Debug, PartialEq, Eq)]
pub enum SmpNote {
    /// Pairing on connection `handle` waits for the user (passkey entry)
    Passkey { handle: u16, method: PairingMethod },
    /// Pairing with `address` ended: bonded, or failed
    Bonded { address: BdAddr, success: bool },
}

/// What the SMP manager holds.
pub struct SmpManagerView {
    /// Pairing sessions, one per connection handle
    pub sessions: Seq<SmpSession>,
    /// Bonds, by ascending device address
    pub bonds: Seq<(BdAddr, SecurityKeys)>,
    pub io_capability: IoCapability,
    /// Notes not yet taken, oldest first
    pub notes: Seq<SmpNote>,
}

/// The manager once the pairing of session `i` failed: the session goes,
/// and the failure is noted.
pub open spec fn failed_removed(v: SmpManagerView, i: int) -> SmpManagerView {
    SmpManagerView {
        sessions: v.sessions.remove(i),
        notes: v.notes.push(SmpNote::Bonded { address: v.sessions[i].remote_addr, success: false }),
        ..v
    }
}

/// Whether connection `h` has an open SMP channel.
pub open spec fn smp_link_open(m: L2capManagerView, h: u16) -> bool {
    let i = find_fixed(m.fixed_channels, h, L2CAP_CID_SMP);
    i >= 0 && m.fixed_channels[i].state == L2capState::Open
}

/// The L2CAP manager after an SMP packet `d` for connection `h`: queued on
/// the connection's SMP channel when it has an open one.
pub open spec fn smp_sent(m: L2capManagerView, h: u16, d: Seq<u8>) -> L2capManagerView {
    let i = find_fixed(m.fixed_channels, h, L2CAP_CID_SMP);
    if smp_link_open(m, h) {
        L2capManagerView {
            fixed_channels: m.fixed_channels.update(i, L2capChannelView { tx_buffer: m.fixed_channels[i].tx_buffer.push(d), ..m.fixed_channels[i] }),
            ..m
        }
    } else {
        m
    }
}

/// Index of the session of connection `h`, or -1.
pub open spec fn find_smp(s: Seq<SmpSession>, h: u16) -> int
    decreases s.len(),
{
    if s.len() == 0 {
        -1
    } else if s.last().handle == h {
        s.len() - 1
    } else {
        find_smp(s.drop_last(), h)
    }
}

/// The manager with a session for connection `h` made when there is none.
pub open spec fn with_smp(v: SmpManagerView, h: u16, a: BdAddr, initiator: bool) -> SmpManagerView {
    if find_smp(v.sessions, h) >= 0 {
        v
    } else {
        SmpManagerView { sessions: v.sessions.push(fresh_session(h, a, initiator, v.io_capability)), ..v }
    }
}

/// Where the session of connection `h` is, or will be once made.
pub open spec fn smp_index(v: SmpManagerView, h: u16) -> int {
    let i = find_smp(v.sessions, h);
    if i >= 0 { i } else { v.sessions.len() as int }
}

/// The manager with session `i` replaced by `s`.
pub open spec fn put_smp(v: SmpManagerView, i: int, s: SmpSession) -> SmpManagerView {
    SmpManagerView { sessions: v.sessions.update(i, s), ..v }
}

pub open spec fn req_pkt(p: super::PairingParams) -> Seq<u8> {
    seq![SmpCode::PairingRequest.code()] + pairing_bytes(p)
}

pub open spec fn rsp_pkt(p: super::PairingParams) -> Seq<u8> {
    seq![SmpCode::PairingResponse.code()] + pairing_bytes(p)
}

pub open spec fn failed_pkt(e: SmpError) -> Seq<u8> {
    seq![SmpCode::PairingFailed.code(), e.code()]
}

/// The public key packet (this host's key is all zero).
pub open spec fn pk_pkt() -> Seq<u8> {
    seq![SmpCode::PairingPublicKey.code()] + zeros32()@ + zeros32()@
}

pub open spec fn confirm_pkt(c: [u8; 16]) -> Seq<u8> {
    seq![SmpCode::PairingConfirm.code()] + c@
}

pub open spec fn random_pkt(r: [u8; 16]) -> Seq<u8> {
    seq![SmpCode::PairingRandom.code()] + r@
}

/// The DHKey check packet (its value is all zero).
pub open spec fn dhcheck_pkt() -> Seq<u8> {
    seq![SmpCode::PairingDhKeyCheck.code()] + zeros16()@
}

pub open spec fn secreq_pkt(a: AuthReq) -> Seq<u8> {
    seq![SmpCode::SecurityRequest.code(), auth_req_byte(a)]
}

/// The key distribution packets this side sends when a pairing with
/// session `s` reaches key distribution: its LTK with a zero EDIV and
/// random number, a zero IRK with the zero public address, a zero CSRK, as
/// its key distribution flags ask.
pub open spec fn distributed(m: L2capManagerView, h: u16, s: SmpSession) -> L2capManagerView {
    let kd = if s.initiator { s.local_params.init_key_dist } else { s.local_params.resp_key_dist };
    let m1 = if kd.enc_key {
        smp_sent(smp_sent(m, h, seq![SmpCode::EncryptionInformation.code()] + s.ltk@), h,
            seq![SmpCode::CentralIdentification.code()] + le16(0) + le64(0))
    } else {
        m
    };
    let m2 = if kd.id_key {
        smp_sent(smp_sent(m1, h, seq![SmpCode::IdentityInformation.code()] + zeros16()@), h,
            seq![SmpCode::IdentityAddressInformation.code(), 0u8] + Seq::new(6, |i: int| 0u8))
    } else {
        m1
    };
    if kd.sign_key { smp_sent(m2, h, seq![SmpCode::SigningInformation.code()] + zeros16()@) } else { m2 }
}

/// After a pairing failed packet with error `e` is sent: the session (if
/// any) fails.
pub open spec fn send_failed(v: SmpManagerView, m: L2capManagerView, h: u16, e: SmpError) -> (SmpManagerView, L2capManagerView) {
    let i = find_smp(v.sessions, h);
    (
        if i >= 0 { put_smp(v, i, SmpSession { state: PairingState::Failed, ..v.sessions[i] }) } else { v },
        smp_sent(m, h, failed_pkt(e)),
    )
}

/// Session `s` after a fresh (all zero) random and confirm value.
pub open spec fn generated(s: SmpSession) -> SmpSession {
    SmpSession { local_random: zeros16(), local_confirm: zeros16(), ..s }
}

/// After pairing is started with connection `h` at address `a`: the
/// request is sent and the session waits for the response.
pub open spec fn on_pair(v: SmpManagerView, m: L2capManagerView, h: u16, a: BdAddr) -> (SmpManagerView, L2capManagerView) {
    let v1 = with_smp(v, h, a, true);
    let i = smp_index(v, h);
    let s = v1.sessions[i];
    (
        if smp_link_open(m, h) { put_smp(v1, i, SmpSession { state: PairingState::WaitPairingResponse, ..s }) } else { v1 },
        smp_sent(m, h, req_pkt(s.local_params)),
    )
}

/// After a pairing request `d`: the remote parameters, the method and
/// whether secure connections are used are recorded, the response sent,
/// and the session waits for the public key (secure connections) or the
/// confirm value.
pub open spec fn on_request(v: SmpManagerView, m: L2capManagerView, h: u16, a: BdAddr, d: Seq<u8>) -> (SmpManagerView, L2capManagerView) {
    if d.len() < 6 {
        send_failed(v, m, h, SmpError::InvalidParameters)
    } else {
        let p = params_of(d);
        let v1 = with_smp(v, h, a, false);
        let i = smp_index(v, h);
        let s = v1.sessions[i];
        let sc = s.local_params.auth_req.sc && p.auth_req.sc;
        let st = if smp_link_open(m, h) { if sc { PairingState::WaitPublicKey } else { PairingState::WaitConfirm } } else { s.state };
        (
            put_smp(v1, i, SmpSession {
                remote_params: Some(p),
                method: pairing_method(s.local_params, Some(p)),
                secure_connections: sc,
                state: st,
                ..s
            }),
            smp_sent(m, h, rsp_pkt(s.local_params)),
        )
    }
}

/// After a pairing response `d`: the remote parameters are recorded, and
/// the public key (secure connections) or the confirm value is sent.
pub open spec fn on_response(v: SmpManagerView, m: L2capManagerView, h: u16, d: Seq<u8>) -> (SmpManagerView, L2capManagerView) {
    let i = find_smp(v.sessions, h);
    if i < 0 {
        (v, m)
    } else if d.len() < 6 {
        send_failed(v, m, h, SmpError::InvalidParameters)
    } else {
        let p = params_of(d);
        let s = v.sessions[i];
        let sc = s.local_params.auth_req.sc && p.auth_req.sc;
        let s2 = SmpSession { remote_params: Some(p), method: pairing_method(s.local_params, Some(p)), secure_connections: sc, ..s };
        if sc {
            (
                put_smp(v, i, SmpSession { local_pk_x: zeros32(), local_pk_y: zeros32(), state: PairingState::WaitPublicKey, ..s2 }),
                smp_sent(m, h, pk_pkt()),
            )
        } else {
            (put_smp(v, i, SmpSession { state: PairingState::WaitConfirm, ..generated(s2) }), smp_sent(m, h, confirm_pkt(zeros16())))
        }
    }
}

/// After a pairing confirm `d`: the remote confirm value is recorded; the
/// initiator sends its random value, the responder its confirm value.
pub open spec fn on_confirm(v: SmpManagerView, m: L2capManagerView, h: u16, d: Seq<u8>) -> (SmpManagerView, L2capManagerView) {
    let i = find_smp(v.sessions, h);
    if i < 0 {
        (v, m)
    } else if d.len() < 16 {
        send_failed(v, m, h, SmpError::InvalidParameters)
    } else {
        let s = v.sessions[i];
        let s1 = SmpSession { remote_confirm: arr16(d.take(16)), ..s };
        if s.initiator {
            (put_smp(v, i, SmpSession { state: PairingState::WaitRandom, ..s1 }), smp_sent(m, h, random_pkt(s.local_random)))
        } else {
            (put_smp(v, i, SmpSession { state: PairingState::WaitRandom, ..generated(s1) }), smp_sent(m, h, confirm_pkt(zeros16())))
        }
    }
}

/// After a pairing random `d`: the remote random value is recorded, the
/// responder sends its own, the keys are derived (all zero) and
/// distributed.
pub open spec fn on_random(v: SmpManagerView, m: L2capManagerView, h: u16, d: Seq<u8>) -> (SmpManagerView, L2capManagerView) {
    let i = find_smp(v.sessions, h);
    if i < 0 {
        (v, m)
    } else if d.len() < 16 {
        send_failed(v, m, h, SmpError::InvalidParameters)
    } else {
        let s = v.sessions[i];
        let m1 = if !s.initiator { smp_sent(m, h, random_pkt(s.local_random)) } else { m };
        let s2 = SmpSession { remote_random: arr16(d.take(16)), ltk: zeros16(), state: PairingState::KeyDistribution, ..s };
        (put_smp(v, i, s2), distributed(m1, h, s2))
    }
}

/// The bonds with the device of session `s` bonded with its keys, when
/// every key the remote side promised has arrived; the session completes.
pub open spec fn check_complete(v: SmpManagerView, h: u16) -> SmpManagerView {
    let i = find_smp(v.sessions, h);
    if i < 0 {
        v
    } else {
        let s = v.sessions[i];
        let rkd = match s.remote_params {
            Some(p) => if s.initiator { p.resp_key_dist } else { p.init_key_dist },
            None => KeyDist { enc_key: false, id_key: false, sign_key: false, link_key: false },
        };
        let k = s.keys;
        let complete = (!rkd.enc_key || k.remote_ltk is Some) && (!rkd.id_key || k.remote_irk is Some)
            && (!rkd.sign_key || k.remote_csrk is Some);
        if complete {
            SmpManagerView {
                sessions: v.sessions.update(i, SmpSession { state: PairingState::Complete, ..s }),
                bonds: insert_bond(v.bonds, (s.remote_addr, k)),
                notes: v.notes.push(SmpNote::Bonded { address: s.remote_addr, success: true }),
                ..v
            }
        } else {
            v
        }
    }
}

/// The session with its keys replaced.
pub open spec fn with_keys(s: SmpSession, k: SecurityKeys) -> SmpSession {
    SmpSession { keys: k, ..s }
}

/// After a key distribution packet `code` with value `d`: the remote LTK,
/// its EDIV and random number, the remote IRK, its identity address, or the
/// remote CSRK is recorded; the identity address may complete the pairing.
pub open spec fn on_key(v: SmpManagerView, h: u16, code: u8, d: Seq<u8>) -> SmpManagerView {
    let i = find_smp(v.sessions, h);
    if i < 0 {
        v
    } else {
        let s = v.sessions[i];
        let k = s.keys;
        if code == SmpCode::EncryptionInformation.code() {
            if d.len() < 16 { v } else {
                put_smp(v, i, with_keys(s, SecurityKeys {
                    remote_ltk: Some(Ltk {
                        value: arr16(d.take(16)),
                        ediv: 0,
                        rand: 0,
                        key_size: s.enc_key_size,
                        authenticated: s.method != PairingMethod::JustWorks,
                        secure_connections: s.secure_connections,
                    }),
                    ..k
                }))
            }
        } else if code == SmpCode::CentralIdentification.code() {
            if d.len() < 10 { v } else {
                match k.remote_ltk {
                    Some(l) => put_smp(v, i, with_keys(s, SecurityKeys {
                        remote_ltk: Some(Ltk { ediv: from_le16(d[0], d[1]), rand: le_value(d.subrange(2, 10)) as u64, ..l }),
                        ..k
                    })),
                    None => v,
                }
            }
        } else if code == SmpCode::IdentityInformation.code() {
            if d.len() < 16 { v } else {
                put_smp(v, i, with_keys(s, SecurityKeys {
                    remote_irk: Some(Irk { value: arr16(d.take(16)), identity_addr: BdAddr(arr6(Seq::new(6, |j: int| 0u8))), addr_type: 0 }),
                    ..k
                }))
            }
        } else if code == SmpCode::IdentityAddressInformation.code() {
            if d.len() < 7 { v } else {
                let v1 = match k.remote_irk {
                    Some(r) => put_smp(v, i, with_keys(s, SecurityKeys {
                        remote_irk: Some(Irk { identity_addr: BdAddr(arr6(d.subrange(1, 7))), addr_type: d[0], ..r }),
                        ..k
                    })),
                    None => v,
                };
                check_complete(v1, h)
            }
        } else {
            if d.len() < 16 { v } else {
                put_smp(v, i, with_keys(s, SecurityKeys {
                    remote_csrk: Some(Csrk { value: arr16(d.take(16)), sign_counter: 0, local: false }),
                    ..k
                }))
            }
        }
    }
}

/// After a security request `d` from the device at `a`: pairing starts
/// when bonding is asked for and the device is not bonded.
pub open spec fn on_security_request(v: SmpManagerView, m: L2capManagerView, h: u16, a: BdAddr, d: Seq<u8>) -> (SmpManagerView, L2capManagerView) {
    if d.len() == 0 {
        (v, m)
    } else if find_bond(v.bonds, addr_value(a)) >= 0 {
        (v, m)
    } else if bit_set(d[0], 0) || bit_set(d[0], 1) {
        on_pair(v, m, h, a)
    } else {
        (v, m)
    }
}

/// After a public key `d` (secure connections): the remote key is
/// recorded, the responder sends its key, the DHKey is derived (all zero),
/// and for Just Works and numeric comparison the confirm value is sent.
pub open spec fn on_public_key(v: SmpManagerView, m: L2capManagerView, h: u16, d: Seq<u8>) -> (SmpManagerView, L2capManagerView) {
    let i = find_smp(v.sessions, h);
    if i < 0 {
        (v, m)
    } else if d.len() < 64 {
        send_failed(v, m, h, SmpError::InvalidParameters)
    } else {
        let s = v.sessions[i];
        let s1 = SmpSession { remote_pk_x: arr32(d.subrange(0, 32)), remote_pk_y: arr32(d.subrange(32, 64)), ..s };
        let s2 = if !s.initiator { SmpSession { local_pk_x: zeros32(), local_pk_y: zeros32(), ..s1 } } else { s1 };
        let m1 = if !s.initiator { smp_sent(m, h, pk_pkt()) } else { m };
        let s3 = SmpSession { dhkey: zeros32(), ..s2 };
        if s.method == PairingMethod::JustWorks || s.method == PairingMethod::NumericComparison {
            (put_smp(v, i, SmpSession { state: PairingState::WaitConfirm, ..generated(s3) }), smp_sent(m1, h, confirm_pkt(zeros16())))
        } else {
            let v1 = put_smp(v, i, s3);
            (SmpManagerView { notes: v.notes.push(SmpNote::Passkey { handle: h, method: s.method }), ..v1 }, m1)
        }
    }
}

/// After a DHKey check `d` (secure connections): the responder sends its
/// own, and the keys are distributed.
pub open spec fn on_dhkey_check(v: SmpManagerView, m: L2capManagerView, h: u16, d: Seq<u8>) -> (SmpManagerView, L2capManagerView) {
    let i = find_smp(v.sessions, h);
    if i < 0 {
        (v, m)
    } else if d.len() < 16 {
        send_failed(v, m, h, SmpError::InvalidParameters)
    } else {
        let s = v.sessions[i];
        let m1 = if !s.initiator { smp_sent(m, h, dhcheck_pkt()) } else { m };
        let s2 = SmpSession { state: PairingState::KeyDistribution, ..s };
        (put_smp(v, i, s2), distributed(m1, h, s2))
    }
}

/// After an SMP packet `data` from connection `h` at address `a`.
pub open spec fn on_smp(v: SmpManagerView, m: L2capManagerView, h: u16, a: BdAddr, data: Seq<u8>) -> (SmpManagerView, L2capManagerView) {
    if data.len() == 0 {
        (v, m)
    } else {
        let code = data[0];
        let d = data.skip(1);
        if code == SmpCode::PairingRequest.code() {
            on_request(v, m, h, a, d)
        } else if code == SmpCode::PairingResponse.code() {
            on_response(v, m, h, d)
        } else if code == SmpCode::PairingConfirm.code() {
            on_confirm(v, m, h, d)
        } else if code == SmpCode::PairingRandom.code() {
            on_random(v, m, h, d)
        } else if code == SmpCode::PairingFailed.code() {
            let i = find_smp(v.sessions, h);
            (if i >= 0 { failed_removed(v, i) } else { v }, m)
        } else if SmpCode::EncryptionInformation.code() <= code <= SmpCode::SigningInformation.code() {
            (on_key(v, h, code, d), m)
        } else if code == SmpCode::SecurityRequest.code() {
            on_security_request(v, m, h, a, d)
        } else if code == SmpCode::PairingPublicKey.code() {
            on_public_key(v, m, h, d)
        } else if code == SmpCode::PairingDhKeyCheck.code() {
            on_dhkey_check(v, m, h, d)
        } else if code == SmpCode::PairingKeypressNotification.code() {
            (v, m)
        } else {
            send_failed(v, m, h, SmpError::CommandNotSupported)
        }
    }
}

/// Two channel lists with the same connections and CIDs at the same places
/// find a fixed channel at the same index.
proof fn lemma_fixed_same(s: Seq<L2capChannelView>, t: Seq<L2capChannelView>, h: u16, c: u16)
    requires
        s.len() == t.len(),
        forall|k: int| 0 <= k < s.len() ==> (#[trigger] s[k]).handle == t[k].handle && s[k].local_cid == t[k].local_cid,
    ensures
        find_fixed(s, h, c) == find_fixed(t, h, c),
    decreases s.len(),
{
    if s.len() > 0 {
        assert forall|k: int| 0 <= k < s.len() - 1 implies (#[trigger] s.drop_last()[k]).handle == t.drop_last()[k].handle
            && s.drop_last()[k].local_cid == t.drop_last()[k].local_cid by {
            assert(s.drop_last()[k] == s[k]);
            assert(t.drop_last()[k] == t[k]);
        }
        lemma_fixed_same(s.drop_last(), t.drop_last(), h, c);
    }
}

/// Sending an SMP packet leaves every connection's SMP channel where it was
/// and as open as it was.
proof fn lemma_smp_sent_keeps(m: L2capManagerView, h: u16, d: Seq<u8>, h2: u16)
    ensures
        find_fixed(smp_sent(m, h, d).fixed_channels, h2, L2CAP_CID_SMP) == find_fixed(m.fixed_channels, h2, L2CAP_CID_SMP),
        smp_link_open(smp_sent(m, h, d), h2) == smp_link_open(m, h2),
{
    let m1 = smp_sent(m, h, d);
    lemma_find_fixed(m.fixed_channels, h, L2CAP_CID_SMP);
    lemma_find_fixed(m.fixed_channels, h2, L2CAP_CID_SMP);
    if smp_link_open(m, h) {
        let i = find_fixed(m.fixed_channels, h, L2CAP_CID_SMP);
        assert forall|k: int| 0 <= k < m1.fixed_channels.len() implies (#[trigger] m1.fixed_channels[k]).handle == m.fixed_channels[k].handle
            && m1.fixed_channels[k].local_cid == m.fixed_channels[k].local_cid && m1.fixed_channels[k].state == m.fixed_channels[k].state by {
            if k == i {
            }
        }
    }
    lemma_fixed_same(m1.fixed_channels, m.fixed_channels, h2, L2CAP_CID_SMP);
}

fn bond_key(a: &BdAddr) -> (r: u64)
    ensures
        r == addr_value(*a),
{
    let b = a.0;
    ((((b[0] as u64 * 256 + b[1] as u64) * 256 + b[2] as u64) * 256 + b[3] as u64) * 256 + b[4] as u64) * 256 + b[5] as u64
}

/// SMP manager. What a pairing has to tell its user (a passkey to enter,
/// a bond made or a pairing failed) is kept as notes until taken.
pub struct SmpManager {
    sessions: Vec<SmpSession>,
    bonded_devices: Vec<(BdAddr, SecurityKeys)>,
    io_capability: IoCapability,
    notes: Vec<SmpNote>,
}

impl View for SmpManager {
    type V = SmpManagerView;

    closed spec fn view(&self) -> SmpManagerView {
        SmpManagerView { sessions: self.sessions@, bonds: self.bonded_devices@, io_capability: self.io_capability, notes: self.notes@ }
    }
}

impl SmpManager {
    /// The manager's invariant: one bond per address, by ascending address.
    pub closed spec fn wf(&self) -> bool {
        bonds_sorted(self@.bonds)
    }

    /// Create new SMP manager: no sessions or bonds, no IO
    pub fn new() -> (r: Self)
        ensures
            r.wf(),
            r@ == (SmpManagerView { sessions: Seq::empty(), bonds: Seq::empty(), io_capability: IoCapability::NoInputNoOutput, notes: Seq::empty() }),
    {
        let r = SmpManager { sessions: Vec::new(), bonded_devices: Vec::new(), io_capability: IoCapability::NoInputNoOutput, notes: Vec::new() };
        assert(r@.notes =~= Seq::<SmpNote>::empty());
        assert(r@.sessions =~= Seq::<SmpSession>::empty());
        assert(r@.bonds =~= Seq::<(BdAddr, SecurityKeys)>::empty());
        r
    }

    /// Take the notes made since they were last taken, oldest first
    pub fn take_notes(&mut self) -> (r: Vec<SmpNote>)
        ensures
            final(self).wf() == old(self).wf(),
            r@ == old(self)@.notes,
            final(self)@ == (SmpManagerView { notes: Seq::empty(), ..old(self)@ }),
    {
        let mut r: Vec<SmpNote> = Vec::new();
        core::mem::swap(&mut r, &mut self.notes);
        assert(self@.notes =~= Seq::<SmpNote>::empty());
        r
    }

    /// Set IO capability
    pub fn set_io_capability(&mut self, cap: IoCapability)
        ensures
            final(self).wf() == old(self).wf(),
            final(self)@ == (SmpManagerView { io_capability: cap, ..old(self)@ }),
    {
        self.io_capability = cap;
    }

    fn find_session(&self, h: u16) -> (r: Option<usize>)
        ensures
            match r {
                Some(i) => i == find_smp(self@.sessions, h) && i < self@.sessions.len(),
                None => find_smp(self@.sessions, h) < 0,
            },
    {
        let mut i: usize = self.sessions.len();
        assert(self@.sessions.take(i as int) =~= self@.sessions);
        while i > 0
            invariant
                i <= self.sessions@.len(),
                find_smp(self@.sessions, h) == find_smp(self@.sessions.take(i as int), h),
            decreases i,
        {
            assert(self@.sessions.take(i as int).drop_last() =~= self@.sessions.take(i - 1));
            if self.sessions[i - 1].handle == h {
                return Some(i - 1);
            }
            i = i - 1;
        }
        proof {
            assert(self@.sessions.take(0) =~= Seq::<SmpSession>::empty());
        }
        None
    }

    fn get_or_create_session(&mut self, h: u16, a: BdAddr, initiator: bool) -> (r: usize)
        ensures
            final(self)@ == with_smp(old(self)@, h, a, initiator),
            r == smp_index(old(self)@, h),
            r < final(self)@.sessions.len(),
    {
        match self.find_session(h) {
            Some(i) => i,
            None => {
                let mut s = SmpSession::new(h, a, initiator);
                s.local_params.io_capability = self.io_capability;
                assert(s == fresh_session(h, a, initiator, self.io_capability));
                self.sessions.push(s);
                self.sessions.len() - 1
            },
        }
    }

    /// Send SMP packet on the connection's SMP channel
    fn send_smp(l2cap: &mut L2capManager, h: u16, data: Vec<u8>) -> (r: Result<(), BluetoothError>)
        ensures
            final(l2cap)@ == smp_sent(old(l2cap)@, h, data@),
            r == if smp_link_open(old(l2cap)@, h) { Ok::<(), BluetoothError>(()) } else { Err(BluetoothError::NotConnected) },
    {
        l2cap.send_fixed(h, L2CAP_CID_SMP, data)
    }

    /// Send a packet made of a code byte and `rest`
    fn send_packet(l2cap: &mut L2capManager, h: u16, code: u8, rest: &[u8]) -> (r: Result<(), BluetoothError>)
        ensures
            final(l2cap)@ == smp_sent(old(l2cap)@, h, seq![code] + rest@),
            r == if smp_link_open(old(l2cap)@, h) { Ok::<(), BluetoothError>(()) } else { Err(BluetoothError::NotConnected) },
    {
        let mut data: Vec<u8> = Vec::new();
        data.push(code);
        crate::wire::extend_bytes(&mut data, rest);
        assert(data@ =~= seq![code] + rest@);
        Self::send_smp(l2cap, h, data)
    }

    /// Send pairing failed; the session (if any) fails
    fn send_pairing_failed(&mut self, l2cap: &mut L2capManager, h: u16, error: SmpError)
        ensures
            (final(self)@, final(l2cap)@) == send_failed(old(self)@, old(l2cap)@, h, error),
    {
        let e = [error.to_u8()];
        assert(seq![SmpCode::PairingFailed.code()] + e@ =~= failed_pkt(error));
        let _ = Self::send_packet(l2cap, h, SmpCode::PairingFailed.to_u8(), &e);
        match self.find_session(h) {
            Some(i) => {
                let mut s = self.sessions[i];
                s.set_state(PairingState::Failed);
                self.sessions.set(i, s);
            },
            None => {},
        }
    }

    /// Initiate pairing: the request is sent and the session waits for the
    /// response
    pub fn pair(&mut self, l2cap: &mut L2capManager, handle: u16, remote_addr: BdAddr) -> (r: Result<(), BluetoothError>)
        ensures
            final(self).wf() == old(self).wf(),
            (final(self)@, final(l2cap)@) == on_pair(old(self)@, old(l2cap)@, handle, remote_addr),
            r == if smp_link_open(old(l2cap)@, handle) { Ok::<(), BluetoothError>(()) } else { Err(BluetoothError::NotConnected) },
    {
        let i = self.get_or_create_session(handle, remote_addr, true);
        let params = self.sessions[i].local_params;
        let bytes = params.to_bytes();
        match Self::send_packet(l2cap, handle, SmpCode::PairingRequest.to_u8(), bytes.as_slice()) {
            Ok(()) => {},
            Err(e) => return Err(e),
        }
        let mut s = self.sessions[i];
        s.set_state(PairingState::WaitPairingResponse);
        self.sessions.set(i, s);
        Ok(())
    }

    /// Send security request (peripheral): the session asks for this host's
    /// authentication requirements
    pub fn security_request(&mut self, l2cap: &mut L2capManager, handle: u16, remote_addr: BdAddr) -> (r: Result<(), BluetoothError>)
        ensures
            final(self).wf() == old(self).wf(),
            final(self)@ == with_smp(old(self)@, handle, remote_addr, false),
            final(l2cap)@ == smp_sent(old(l2cap)@, handle, secreq_pkt(final(self)@.sessions[smp_index(old(self)@, handle)].local_params.auth_req)),
            r == if smp_link_open(old(l2cap)@, handle) { Ok::<(), BluetoothError>(()) } else { Err(BluetoothError::NotConnected) },
    {
        let i = self.get_or_create_session(handle, remote_addr, false);
        let auth_req = self.sessions[i].local_params.auth_req.to_byte();
        let d = [auth_req];
        assert(seq![SmpCode::SecurityRequest.code()] + d@ =~= secreq_pkt(self@.sessions[i as int].local_params.auth_req));
        Self::send_packet(l2cap, handle, SmpCode::SecurityRequest.to_u8(), &d)
    }
}

impl SmpManager {
    /// Send public key (this host's key is all zero)
    fn send_public_key(l2cap: &mut L2capManager, h: u16)
        ensures
            final(l2cap)@ == smp_sent(old(l2cap)@, h, pk_pkt()),
    {
        let x = zero32();
        let y = zero32();
        let mut data: Vec<u8> = Vec::new();
        data.push(SmpCode::PairingPublicKey.to_u8());
        crate::wire::extend_bytes(&mut data, x.as_slice());
        crate::wire::extend_bytes(&mut data, y.as_slice());
        assert(data@ =~= pk_pkt());
        let _ = Self::send_smp(l2cap, h, data);
    }

    /// Send confirm value `c`
    fn send_confirm(l2cap: &mut L2capManager, h: u16, c: [u8; 16])
        ensures
            final(l2cap)@ == smp_sent(old(l2cap)@, h, confirm_pkt(c)),
    {
        let _ = Self::send_packet(l2cap, h, SmpCode::PairingConfirm.to_u8(), c.as_slice());
    }

    /// Send random value `r`
    fn send_random(l2cap: &mut L2capManager, h: u16, r: [u8; 16])
        ensures
            final(l2cap)@ == smp_sent(old(l2cap)@, h, random_pkt(r)),
    {
        let _ = Self::send_packet(l2cap, h, SmpCode::PairingRandom.to_u8(), r.as_slice());
    }

    /// Send DHKey check (its value is all zero)
    fn send_dhkey_check(l2cap: &mut L2capManager, h: u16)
        ensures
            final(l2cap)@ == smp_sent(old(l2cap)@, h, dhcheck_pkt()),
    {
        let check = zero16();
        let _ = Self::send_packet(l2cap, h, SmpCode::PairingDhKeyCheck.to_u8(), check.as_slice());
    }

    /// Distribute this side's keys as its key distribution flags ask
    fn distribute_keys(l2cap: &mut L2capManager, h: u16, s: &SmpSession)
        ensures
            final(l2cap)@ == distributed(old(l2cap)@, h, *s),
    {
        let kd = if s.initiator { s.local_params.init_key_dist } else { s.local_params.resp_key_dist };
        let ghost m0 = l2cap@;
        if kd.enc_key {
            let ltk = s.ltk;
            let ls = ltk.as_slice();
            assert(ls@ == s.ltk@);
            let _ = Self::send_packet(l2cap, h, SmpCode::EncryptionInformation.to_u8(), ls);
            assert(l2cap@ == smp_sent(m0, h, seq![SmpCode::EncryptionInformation.code()] + s.ltk@));
            let mut d: Vec<u8> = Vec::new();
            crate::wire::push_u16_le(&mut d, 0);
            crate::wire::push_u64_le(&mut d, 0);
            assert(d@ =~= le16(0) + le64(0));
            assert(seq![SmpCode::CentralIdentification.code()] + d@ =~= seq![SmpCode::CentralIdentification.code()] + le16(0) + le64(0));
            let _ = Self::send_packet(l2cap, h, SmpCode::CentralIdentification.to_u8(), d.as_slice());
        }
        let ghost m1 = l2cap@;
        assert(m1 == (if kd.enc_key {
            smp_sent(smp_sent(m0, h, seq![SmpCode::EncryptionInformation.code()] + s.ltk@), h,
                seq![SmpCode::CentralIdentification.code()] + le16(0) + le64(0))
        } else {
            m0
        }));
        if kd.id_key {
            let irk = zero16();
            let _ = Self::send_packet(l2cap, h, SmpCode::IdentityInformation.to_u8(), irk.as_slice());
            let a: [u8; 7] = [0, 0, 0, 0, 0, 0, 0];
            assert(seq![SmpCode::IdentityAddressInformation.code()] + a@ =~= seq![SmpCode::IdentityAddressInformation.code(), 0u8]
                + Seq::new(6, |i: int| 0u8));
            let _ = Self::send_packet(l2cap, h, SmpCode::IdentityAddressInformation.to_u8(), a.as_slice());
        }
        let ghost m2 = l2cap@;
        assert(m2 == (if kd.id_key {
            smp_sent(smp_sent(m1, h, seq![SmpCode::IdentityInformation.code()] + zeros16()@), h,
                seq![SmpCode::IdentityAddressInformation.code(), 0u8] + Seq::new(6, |i: int| 0u8))
        } else {
            m1
        }));
        if kd.sign_key {
            let csrk = zero16();
            let _ = Self::send_packet(l2cap, h, SmpCode::SigningInformation.to_u8(), csrk.as_slice());
        }
    }

    fn handle_pairing_request(&mut self, l2cap: &mut L2capManager, h: u16, a: BdAddr, d: &[u8])
        ensures
            final(self)@.bonds == old(self)@.bonds,
            (final(self)@, final(l2cap)@) == on_request(old(self)@, old(l2cap)@, h, a, d@),
    {
        let rp = match super::PairingParams::from_bytes(d) {
            Some(p) => p,
            None => {
                self.send_pairing_failed(l2cap, h, SmpError::InvalidParameters);
                return;
            },
        };
        let i = self.get_or_create_session(h, a, false);
        let mut s = self.sessions[i];
        s.remote_params = Some(rp);
        s.method = s.determine_method();
        let use_sc = s.local_params.auth_req.sc && rp.auth_req.sc;
        s.secure_connections = use_sc;
        let bytes = s.local_params.to_bytes();
        let sent = Self::send_packet(l2cap, h, SmpCode::PairingResponse.to_u8(), bytes.as_slice());
        if sent.is_ok() {
            if use_sc {
                s.set_state(PairingState::WaitPublicKey);
            } else {
                s.set_state(PairingState::WaitConfirm);
            }
        }
        self.sessions.set(i, s);
    }

    fn handle_pairing_response(&mut self, l2cap: &mut L2capManager, h: u16, d: &[u8])
        ensures
            final(self)@.bonds == old(self)@.bonds,
            (final(self)@, final(l2cap)@) == on_response(old(self)@, old(l2cap)@, h, d@),
    {
        let i = match self.find_session(h) {
            Some(i) => i,
            None => return,
        };
        let rp = match super::PairingParams::from_bytes(d) {
            Some(p) => p,
            None => {
                self.send_pairing_failed(l2cap, h, SmpError::InvalidParameters);
                return;
            },
        };
        let mut s = self.sessions[i];
        s.remote_params = Some(rp);
        s.method = s.determine_method();
        let use_sc = s.local_params.auth_req.sc && rp.auth_req.sc;
        s.secure_connections = use_sc;
        if use_sc {
            s.local_pk_x = zero32();
            s.local_pk_y = zero32();
            Self::send_public_key(l2cap, h);
            s.set_state(PairingState::WaitPublicKey);
        } else {
            s.local_random = zero16();
            s.local_confirm = zero16();
            Self::send_confirm(l2cap, h, s.local_confirm);
            s.set_state(PairingState::WaitConfirm);
        }
        self.sessions.set(i, s);
    }

    fn handle_pairing_confirm(&mut self, l2cap: &mut L2capManager, h: u16, d: &[u8])
        ensures
            final(self)@.bonds == old(self)@.bonds,
            (final(self)@, final(l2cap)@) == on_confirm(old(self)@, old(l2cap)@, h, d@),
    {
        let i = match self.find_session(h) {
            Some(i) => i,
            None => return,
        };
        if d.len() < 16 {
            self.send_pairing_failed(l2cap, h, SmpError::InvalidParameters);
            return;
        }
        let mut s = self.sessions[i];
        s.remote_confirm = copy16(d, 0);
        assert(d@.subrange(0, 16) == d@.take(16));
        if s.initiator {
            Self::send_random(l2cap, h, s.local_random);
            s.set_state(PairingState::WaitRandom);
        } else {
            s.local_random = zero16();
            s.local_confirm = zero16();
            Self::send_confirm(l2cap, h, s.local_confirm);
            s.set_state(PairingState::WaitRandom);
        }
        self.sessions.set(i, s);
    }

    /// Verify the remote confirm value (every value is accepted)
    fn verify_confirm(&self, _handle: u16) -> (r: bool)
        ensures
            r,
    {
        true
    }

    fn handle_pairing_random(&mut self, l2cap: &mut L2capManager, h: u16, d: &[u8])
        ensures
            final(self)@.bonds == old(self)@.bonds,
            (final(self)@, final(l2cap)@) == on_random(old(self)@, old(l2cap)@, h, d@),
    {
        let i = match self.find_session(h) {
            Some(i) => i,
            None => return,
        };
        if d.len() < 16 {
            self.send_pairing_failed(l2cap, h, SmpError::InvalidParameters);
            return;
        }
        let mut s = self.sessions[i];
        s.remote_random = copy16(d, 0);
        assert(d@.subrange(0, 16) == d@.take(16));
        if !self.verify_confirm(h) {
            self.send_pairing_failed(l2cap, h, SmpError::ConfirmValueFailed);
            return;
        }
        if !s.initiator {
            Self::send_random(l2cap, h, s.local_random);
        }
        s.ltk = zero16();
        s.set_state(PairingState::KeyDistribution);
        self.sessions.set(i, s);
        Self::distribute_keys(l2cap, h, &s);
    }

    fn handle_pairing_failed(&mut self, h: u16)
        ensures
            final(self)@.bonds == old(self)@.bonds,
            final(self)@ == ({
                let i = find_smp(old(self)@.sessions, h);
                if i >= 0 { failed_removed(old(self)@, i) } else { old(self)@ }
            }),
    {
        match self.find_session(h) {
            Some(i) => {
                let s = self.sessions.remove(i);
                self.notes.push(SmpNote::Bonded { address: s.remote_addr, success: false });
            },
            None => {},
        }
    }

    fn handle_encryption_info(&mut self, h: u16, d: &[u8])
        ensures
            final(self)@.bonds == old(self)@.bonds,
            final(self)@ == on_key(old(self)@, h, SmpCode::EncryptionInformation.code(), d@),
    {
        let i = match self.find_session(h) {
            Some(i) => i,
            None => return,
        };
        if d.len() < 16 {
            return;
        }
        let mut s = self.sessions[i];
        let value = copy16(d, 0);
        assert(d@.subrange(0, 16) == d@.take(16));
        let ltk = Ltk {
            value,
            ediv: 0,
            rand: 0,
            key_size: s.enc_key_size,
            authenticated: s.method != PairingMethod::JustWorks,
            secure_connections: s.secure_connections,
        };
        s.keys.remote_ltk = Some(ltk);
        self.sessions.set(i, s);
    }

    fn handle_central_id(&mut self, h: u16, d: &[u8])
        ensures
            final(self)@.bonds == old(self)@.bonds,
            final(self)@ == on_key(old(self)@, h, SmpCode::CentralIdentification.code(), d@),
    {
        let i = match self.find_session(h) {
            Some(i) => i,
            None => return,
        };
        if d.len() < 10 {
            return;
        }
        let ediv = crate::wire::make_u16(d[0], d[1]);
        let rand = crate::wire::read_le(d, 2, 8);
        let mut s = self.sessions[i];
        match s.keys.remote_ltk {
            Some(l) => {
                s.keys.remote_ltk = Some(Ltk { ediv, rand, ..l });
                self.sessions.set(i, s);
            },
            None => {},
        }
    }

    fn handle_identity_info(&mut self, h: u16, d: &[u8])
        ensures
            final(self)@.bonds == old(self)@.bonds,
            final(self)@ == on_key(old(self)@, h, SmpCode::IdentityInformation.code(), d@),
    {
        let i = match self.find_session(h) {
            Some(i) => i,
            None => return,
        };
        if d.len() < 16 {
            return;
        }
        let value = copy16(d, 0);
        assert(d@.subrange(0, 16) == d@.take(16));
        let z: [u8; 6] = [0, 0, 0, 0, 0, 0];
        proof {
            super::lemma_arr6(z);
            assert(z@ =~= Seq::new(6, |j: int| 0u8));
        }
        let mut s = self.sessions[i];
        s.keys.remote_irk = Some(Irk { value, identity_addr: BdAddr(z), addr_type: 0 });
        self.sessions.set(i, s);
    }

    fn handle_signing_info(&mut self, h: u16, d: &[u8])
        ensures
            final(self)@.bonds == old(self)@.bonds,
            final(self)@ == on_key(old(self)@, h, SmpCode::SigningInformation.code(), d@),
    {
        let i = match self.find_session(h) {
            Some(i) => i,
            None => return,
        };
        if d.len() < 16 {
            return;
        }
        let value = copy16(d, 0);
        assert(d@.subrange(0, 16) == d@.take(16));
        let mut s = self.sessions[i];
        s.keys.remote_csrk = Some(Csrk { value, sign_counter: 0, local: false });
        self.sessions.set(i, s);
    }
}

impl SmpManager {
    fn find_bond_index(&self, address: &BdAddr) -> (r: Option<usize>)
        ensures
            match r {
                Some(i) => i == find_bond(self@.bonds, addr_value(*address)) && i < self@.bonds.len(),
                None => find_bond(self@.bonds, addr_value(*address)) < 0,
            },
    {
        let k = bond_key(address);
        proof {
            lemma_find_bond(self@.bonds, k as nat);
        }
        let mut i: usize = self.bonded_devices.len();
        assert(self@.bonds.take(i as int) =~= self@.bonds);
        while i > 0
            invariant
                i <= self.bonded_devices@.len(),
                k == addr_value(*address),
                find_bond(self@.bonds, k as nat) == find_bond(self@.bonds.take(i as int), k as nat),
            decreases i,
        {
            assert(self@.bonds.take(i as int).drop_last() =~= self@.bonds.take(i - 1));
            if bond_key(&self.bonded_devices[i - 1].0) == k {
                return Some(i - 1);
            }
            i = i - 1;
        }
        None
    }

    /// Put a bond in under its address, replacing one there.
    fn put_bond(&mut self, address: BdAddr, keys: SecurityKeys)
        requires
            old(self).wf(),
        ensures
            final(self)@ == (SmpManagerView { bonds: insert_bond(old(self)@.bonds, (address, keys)), ..old(self)@ }),
            final(self).wf(),
    {
        proof {
            lemma_insert_bond_sorted(self@.bonds, (address, keys));
            lemma_bond_lower_bound(self@.bonds, addr_value(address));
        }
        let k = bond_key(&address);
        match self.find_bond_index(&address) {
            Some(i) => {
                self.bonded_devices.set(i, (address, keys));
            },
            None => {
                let mut p: usize = self.bonded_devices.len();
                while p > 0 && bond_key(&self.bonded_devices[p - 1].0) >= k
                    invariant
                        p <= self.bonded_devices@.len(),
                        self@ == old(self)@,
                        bonds_sorted(self@.bonds),
                        k == addr_value(address),
                        bond_lower_bound(self@.bonds, k as nat) <= p,
                    decreases p,
                {
                    proof {
                        lemma_bond_lower_bound(self@.bonds, k as nat);
                    }
                    p = p - 1;
                }
                proof {
                    lemma_bond_lower_bound(self@.bonds, k as nat);
                }
                assert(p == bond_lower_bound(self@.bonds, k as nat));
                self.bonded_devices.insert(p, (address, keys));
            },
        }
    }

    /// Check if pairing is complete: when every key the remote side
    /// promised has arrived, the session completes and the device is bonded
    fn check_pairing_complete(&mut self, h: u16)
        requires
            old(self).wf(),
        ensures
            final(self).wf(),
            final(self)@ == check_complete(old(self)@, h),
    {
        let i = match self.find_session(h) {
            Some(i) => i,
            None => return,
        };
        let mut s = self.sessions[i];
        let rkd = match s.remote_params {
            Some(p) => if s.initiator { p.resp_key_dist } else { p.init_key_dist },
            None => KeyDist { enc_key: false, id_key: false, sign_key: false, link_key: false },
        };
        let keys = s.keys;
        let complete = (!rkd.enc_key || keys.remote_ltk.is_some()) && (!rkd.id_key || keys.remote_irk.is_some())
            && (!rkd.sign_key || keys.remote_csrk.is_some());
        if complete {
            s.set_state(PairingState::Complete);
            self.sessions.set(i, s);
            self.put_bond(s.remote_addr, keys);
            self.notes.push(SmpNote::Bonded { address: s.remote_addr, success: true });
        }
    }

    fn handle_identity_addr_info(&mut self, h: u16, d: &[u8])
        requires
            old(self).wf(),
        ensures
            final(self).wf(),
            final(self)@ == on_key(old(self)@, h, SmpCode::IdentityAddressInformation.code(), d@),
    {
        let i = match self.find_session(h) {
            Some(i) => i,
            None => return,
        };
        if d.len() < 7 {
            return;
        }
        let addr_type = d[0];
        let addr = copy6(d, 1);
        let mut s = self.sessions[i];
        match s.keys.remote_irk {
            Some(k) => {
                s.keys.remote_irk = Some(Irk { identity_addr: BdAddr(addr), addr_type, ..k });
                self.sessions.set(i, s);
            },
            None => {},
        }
        self.check_pairing_complete(h);
    }

    fn handle_security_request(&mut self, l2cap: &mut L2capManager, h: u16, a: BdAddr, d: &[u8])
        requires
            old(self).wf(),
        ensures
            final(self).wf(),
            (final(self)@, final(l2cap)@) == on_security_request(old(self)@, old(l2cap)@, h, a, d@),
    {
        if d.len() == 0 {
            return;
        }
        let auth_req = AuthReq::from_byte(d[0]);
        match self.find_bond_index(&a) {
            Some(_) => {},
            None => {
                if auth_req.bonding {
                    let _ = self.pair(l2cap, h, a);
                }
            },
        }
    }

    fn handle_pairing_public_key(&mut self, l2cap: &mut L2capManager, h: u16, d: &[u8])
        ensures
            final(self)@.bonds == old(self)@.bonds,
            (final(self)@, final(l2cap)@) == on_public_key(old(self)@, old(l2cap)@, h, d@),
    {
        let i = match self.find_session(h) {
            Some(i) => i,
            None => return,
        };
        if d.len() < 64 {
            self.send_pairing_failed(l2cap, h, SmpError::InvalidParameters);
            return;
        }
        let mut s = self.sessions[i];
        s.remote_pk_x = copy32(d, 0);
        s.remote_pk_y = copy32(d, 32);
        if !s.initiator {
            s.local_pk_x = zero32();
            s.local_pk_y = zero32();
            Self::send_public_key(l2cap, h);
        }
        s.dhkey = zero32();
        if s.method == PairingMethod::JustWorks || s.method == PairingMethod::NumericComparison {
            s.local_random = zero16();
            s.local_confirm = zero16();
            Self::send_confirm(l2cap, h, s.local_confirm);
            s.set_state(PairingState::WaitConfirm);
            self.sessions.set(i, s);
        } else {
            self.sessions.set(i, s);
            self.notes.push(SmpNote::Passkey { handle: h, method: s.method });
        }
    }

    fn handle_pairing_dhkey_check(&mut self, l2cap: &mut L2capManager, h: u16, d: &[u8])
        ensures
            final(self)@.bonds == old(self)@.bonds,
            (final(self)@, final(l2cap)@) == on_dhkey_check(old(self)@, old(l2cap)@, h, d@),
    {
        let i = match self.find_session(h) {
            Some(i) => i,
            None => return,
        };
        if d.len() < 16 {
            self.send_pairing_failed(l2cap, h, SmpError::InvalidParameters);
            return;
        }
        let mut s = self.sessions[i];
        if !s.initiator {
            Self::send_dhkey_check(l2cap, h);
        }
        s.set_state(PairingState::KeyDistribution);
        self.sessions.set(i, s);
        Self::distribute_keys(l2cap, h, &s);
    }

    /// Handle incoming SMP packet from connection `handle` at `remote_addr`
    pub fn handle_smp(&mut self, l2cap: &mut L2capManager, handle: u16, remote_addr: BdAddr, data: &[u8])
        requires
            old(self).wf(),
        ensures
            final(self).wf(),
            (final(self)@, final(l2cap)@) == on_smp(old(self)@, old(l2cap)@, handle, remote_addr, data@),
    {
        if data.len() == 0 {
            return;
        }
        let code = data[0];
        let rest = copy_range(data, 1, data.len());
        assert(rest@ =~= data@.skip(1));
        let payload = rest.as_slice();
        if code == SmpCode::PairingRequest.to_u8() {
            self.handle_pairing_request(l2cap, handle, remote_addr, payload);
        } else if code == SmpCode::PairingResponse.to_u8() {
            self.handle_pairing_response(l2cap, handle, payload);
        } else if code == SmpCode::PairingConfirm.to_u8() {
            self.handle_pairing_confirm(l2cap, handle, payload);
        } else if code == SmpCode::PairingRandom.to_u8() {
            self.handle_pairing_random(l2cap, handle, payload);
        } else if code == SmpCode::PairingFailed.to_u8() {
            self.handle_pairing_failed(handle);
        } else if code == SmpCode::EncryptionInformation.to_u8() {
            self.handle_encryption_info(handle, payload);
        } else if code == SmpCode::CentralIdentification.to_u8() {
            self.handle_central_id(handle, payload);
        } else if code == SmpCode::IdentityInformation.to_u8() {
            self.handle_identity_info(handle, payload);
        } else if code == SmpCode::IdentityAddressInformation.to_u8() {
            self.handle_identity_addr_info(handle, payload);
        } else if code == SmpCode::SigningInformation.to_u8() {
            self.handle_signing_info(handle, payload);
        } else if code == SmpCode::SecurityRequest.to_u8() {
            self.handle_security_request(l2cap, handle, remote_addr, payload);
        } else if code == SmpCode::PairingPublicKey.to_u8() {
            self.handle_pairing_public_key(l2cap, handle, payload);
        } else if code == SmpCode::PairingDhKeyCheck.to_u8() {
            self.handle_pairing_dhkey_check(l2cap, handle, payload);
        } else if code == SmpCode::PairingKeypressNotification.to_u8() {
        } else {
            self.send_pairing_failed(l2cap, handle, SmpError::CommandNotSupported);
        }
    }

    /// Enter passkey: the session sends a confirm value and waits for the
    /// remote one
    pub fn enter_passkey(&mut self, l2cap: &mut L2capManager, handle: u16, passkey: u32) -> (r: Result<(), BluetoothError>)
        ensures
            final(self).wf() == old(self).wf(),
            ({
                let i = find_smp(old(self)@.sessions, handle);
                if i < 0 {
                    r == Err::<(), BluetoothError>(BluetoothError::NotFound) && final(self)@ == old(self)@ && final(l2cap)@ == old(l2cap)@
                } else {
                    &&& r is Ok
                    &&& final(self)@ == put_smp(old(self)@, i, SmpSession {
                        passkey,
                        state: PairingState::WaitConfirm,
                        ..generated(old(self)@.sessions[i])
                    })
                    &&& final(l2cap)@ == smp_sent(old(l2cap)@, handle, confirm_pkt(zeros16()))
                }
            }),
    {
        let i = match self.find_session(handle) {
            Some(i) => i,
            None => return Err(BluetoothError::NotFound),
        };
        let mut s = self.sessions[i];
        s.passkey = passkey;
        s.local_random = zero16();
        s.local_confirm = zero16();
        Self::send_confirm(l2cap, handle, s.local_confirm);
        s.set_state(PairingState::WaitConfirm);
        self.sessions.set(i, s);
        Ok(())
    }

    /// Confirm numeric comparison: a refusal fails the pairing; an
    /// acceptance sends the DHKey check and waits for the remote one
    pub fn confirm_numeric(&mut self, l2cap: &mut L2capManager, handle: u16, accept: bool) -> (r: Result<(), BluetoothError>)
        ensures
            final(self).wf() == old(self).wf(),
            ({
                let i = find_smp(old(self)@.sessions, handle);
                if !accept {
                    r is Ok && (final(self)@, final(l2cap)@) == send_failed(old(self)@, old(l2cap)@, handle, SmpError::NumericComparisonFailed)
                } else if i < 0 {
                    r == Err::<(), BluetoothError>(BluetoothError::NotFound) && final(self)@ == old(self)@ && final(l2cap)@ == old(l2cap)@
                } else {
                    &&& r is Ok
                    &&& final(self)@ == put_smp(old(self)@, i, SmpSession { state: PairingState::WaitDhKeyCheck, ..old(self)@.sessions[i] })
                    &&& final(l2cap)@ == smp_sent(old(l2cap)@, handle, dhcheck_pkt())
                }
            }),
    {
        if !accept {
            self.send_pairing_failed(l2cap, handle, SmpError::NumericComparisonFailed);
            return Ok(());
        }
        let i = match self.find_session(handle) {
            Some(i) => i,
            None => return Err(BluetoothError::NotFound),
        };
        Self::send_dhkey_check(l2cap, handle);
        let mut s = self.sessions[i];
        s.set_state(PairingState::WaitDhKeyCheck);
        self.sessions.set(i, s);
        Ok(())
    }

    /// Get bonded device keys
    pub fn get_bond(&self, addr: &BdAddr) -> (r: Option<SecurityKeys>)
        ensures
            ({
                let i = find_bond(self@.bonds, addr_value(*addr));
                r == if i >= 0 { Some(self@.bonds[i].1) } else { None::<SecurityKeys> }
            }),
    {
        match self.find_bond_index(addr) {
            Some(i) => Some(self.bonded_devices[i].1),
            None => None,
        }
    }

    /// Remove bond: whether there was one
    pub fn remove_bond(&mut self, addr: &BdAddr) -> (r: bool)
        requires
            old(self).wf(),
        ensures
            final(self).wf(),
            ({
                let i = find_bond(old(self)@.bonds, addr_value(*addr));
                &&& r == (i >= 0)
                &&& final(self)@ == if i >= 0 { SmpManagerView { bonds: old(self)@.bonds.remove(i), ..old(self)@ } } else { old(self)@ }
            }),
    {
        match self.find_bond_index(addr) {
            Some(i) => {
                proof {
                    lemma_remove_bond_sorted(self@.bonds, i as int);
                }
                let _ = self.bonded_devices.remove(i);
                true
            },
            None => false,
        }
    }

    /// Get all bonded devices, by ascending address
    pub fn bonded_devices(&self) -> (r: Vec<BdAddr>)
        ensures
            r@ == self@.bonds.map_values(|b: (BdAddr, SecurityKeys)| b.0),
    {
        let mut out: Vec<BdAddr> = Vec::new();
        let mut i: usize = 0;
        while i < self.bonded_devices.len()
            invariant
                i <= self.bonded_devices@.len(),
                out@ == self@.bonds.take(i as int).map_values(|b: (BdAddr, SecurityKeys)| b.0),
            decreases self.bonded_devices@.len() - i,
        {
            out.push(self.bonded_devices[i].0);
            assert(self@.bonds.take(i + 1).map_values(|b: (BdAddr, SecurityKeys)| b.0) =~= self@.bonds.take(i as int).map_values(
                |b: (BdAddr, SecurityKeys)| b.0).push(self@.bonds[i as int].0));
            i = i + 1;
        }
        assert(self@.bonds.take(i as int) =~= self@.bonds);
        out
    }
}

} // verus!
