//! AVDTP stream endpoints and the signaling session.
//!
//! A session owns its signaling channel and its local endpoints. Commands
//! it sends are remembered under their transaction label until the answer
//! comes; the answer to a command it receives is queued on the channel.
//! Handling a message yields the endpoint state changes it caused, in
//! order, for whoever watches them.
use vstd::prelude::*;
use vstd::slice::slice_to_vec;
use super::{
    AvdtpError, AvdtpMessageType, AvdtpPacket, AvdtpPacketType, AvdtpSignal, AudioCodec, ContentProtection,
    MediaCodecCapability, MediaType, RemoteSep, SbcConfig, SepCapabilities, SepCapabilitiesView, SepState, SepType,
    avdtp_header, caps_bytes, caps_parse, default_caps, A2dpRole, A2dpState, SbcAllocation, SbcBlockLength, SbcChannelMode,
    SbcSamplingFreq, SbcSubbands, media_type_of, message_type_of, sbc_bytes, ContentProtectionView,
    MediaCodecView, opt_cp_view, opt_codec_view,
};
use crate::bluetooth::BluetoothError;
use crate::bluetooth::l2cap::{new_channel_view, L2capChannel, L2capChannelView, L2capState, L2CAP_PSM_AVDTP};
use crate::bluetooth::l2cap::manager::{connected_on, manager_wf, L2capManager};

verus! {

// -----------------------------------------------------------------------------
// Copies
// -----------------------------------------------------------------------------

fn copy_content_protection(c: &Option<ContentProtection>) -> (r: Option<ContentProtection>)
    ensures
        opt_cp_view(r) == opt_cp_view(*c),
{
    match c {
        Some(cp) => Some(ContentProtection { cp_type: cp.cp_type, cp_value: slice_to_vec(cp.cp_value.as_slice()) }),
        None => None,
    }
}

fn copy_codec(c: &Option<MediaCodecCapability>) -> (r: Option<MediaCodecCapability>)
    ensures
        opt_codec_view(r) == opt_codec_view(*c),
{
    match c {
        Some(m) => Some(MediaCodecCapability {
            media_type: m.media_type,
            codec_type: m.codec_type,
            codec_info: slice_to_vec(m.codec_info.as_slice()),
        }),
        None => None,
    }
}

/// A copy of a set of capabilities.
fn copy_caps(c: &SepCapabilities) -> (r: SepCapabilities)
    ensures
        r@ == c@,
{
    SepCapabilities {
        media_transport: c.media_transport,
        reporting: c.reporting,
        recovery: c.recovery,
        content_protection: copy_content_protection(&c.content_protection),
        header_compression: c.header_compression,
        multiplexing: c.multiplexing,
        media_codec: copy_codec(&c.media_codec),
        delay_reporting: c.delay_reporting,
    }
}

/// The plain value of an optional set of capabilities.
pub open spec fn opt_caps_view(o: Option<SepCapabilities>) -> Option<SepCapabilitiesView> {
    match o {
        Some(c) => Some(c@),
        None => None,
    }
}

/// The plain value of a remote stream endpoint.
pub struct RemoteSepView {
    pub seid: u8,
    pub in_use: bool,
    pub media_type: MediaType,
    pub sep_type: SepType,
    pub capabilities: Option<SepCapabilitiesView>,
}

impl View for RemoteSep {
    type V = RemoteSepView;

    open spec fn view(&self) -> RemoteSepView {
        RemoteSepView {
            seid: self.seid,
            in_use: self.in_use,
            media_type: self.media_type,
            sep_type: self.sep_type,
            capabilities: opt_caps_view(self.capabilities),
        }
    }
}

fn copy_remote(r: &RemoteSep) -> (c: RemoteSep)
    ensures
        c@ == r@,
{
    RemoteSep {
        seid: r.seid,
        in_use: r.in_use,
        media_type: r.media_type,
        sep_type: r.sep_type,
        capabilities: match &r.capabilities {
            Some(caps) => Some(copy_caps(caps)),
            None => None,
        },
    }
}

// -----------------------------------------------------------------------------
// Stream endpoint
// -----------------------------------------------------------------------------

/// The state of a stream endpoint.
pub struct StreamEndpointView {
    pub seid: u8,
    pub sep_type: SepType,
    pub media_type: MediaType,
    pub in_use: bool,
    pub state: SepState,
    pub capabilities: SepCapabilitiesView,
    pub configuration: Option<SepCapabilitiesView>,
    pub remote_seid: u8,
    pub transport: Option<L2capChannelView>,
}

/// Stream endpoint
pub struct StreamEndpoint {
    /// Stream Endpoint Identifier (1-62)
    pub seid: u8,
    /// Type (source/sink)
    pub sep_type: SepType,
    /// Media type
    pub media_type: MediaType,
    /// Is in use
    in_use: bool,
    /// State
    state: SepState,
    /// Capabilities
    pub capabilities: SepCapabilities,
    /// Current configuration
    pub configuration: Option<SepCapabilities>,
    /// Remote SEID (when configured)
    pub remote_seid: u8,
    /// Transport channel
    pub transport: Option<L2capChannel>,
}

impl View for StreamEndpoint {
    type V = StreamEndpointView;

    closed spec fn view(&self) -> StreamEndpointView {
        StreamEndpointView {
            seid: self.seid,
            sep_type: self.sep_type,
            media_type: self.media_type,
            in_use: self.in_use,
            state: self.state,
            capabilities: self.capabilities@,
            configuration: opt_caps_view(self.configuration),
            remote_seid: self.remote_seid,
            transport: match self.transport {
                Some(ch) => Some(ch@),
                None => None,
            },
        }
    }
}

impl StreamEndpoint {
    /// Create new stream endpoint
    pub fn new(seid: u8, sep_type: SepType, media_type: MediaType) -> (r: Self)
        ensures
            r@ == (StreamEndpointView {
                seid,
                sep_type,
                media_type,
                in_use: false,
                state: SepState::Idle,
                capabilities: default_caps(),
                configuration: None,
                remote_seid: 0,
                transport: None,
            }),
    {
        StreamEndpoint {
            seid,
            sep_type,
            media_type,
            in_use: false,
            state: SepState::Idle,
            capabilities: SepCapabilities::default(),
            configuration: None,
            remote_seid: 0,
            transport: None,
        }
    }

    /// Get state
    pub fn state(&self) -> (r: SepState)
        ensures
            r == self@.state,
    {
        self.state
    }

    /// Set state
    pub fn set_state(&mut self, state: SepState)
        ensures
            final(self)@ == (StreamEndpointView { state, ..old(self)@ }),
    {
        self.state = state;
    }

    /// Is in use
    pub fn is_in_use(&self) -> (r: bool)
        ensures
            r == self@.in_use,
    {
        self.in_use
    }

    /// Set in use
    pub fn set_in_use(&mut self, in_use: bool)
        ensures
            final(self)@ == (StreamEndpointView { in_use, ..old(self)@ }),
    {
        self.in_use = in_use;
    }

    /// Advertise an SBC codec with these parameters (and media transport)
    pub fn set_sbc_capabilities(&mut self, config: SbcConfig)
        ensures
            final(self)@ == (StreamEndpointView {
                capabilities: SepCapabilitiesView {
                    media_transport: true,
                    media_codec: Some(MediaCodecView {
                        media_type: MediaType::Audio,
                        codec_type: AudioCodec::Sbc.code(),
                        codec_info: sbc_bytes(config),
                    }),
                    ..old(self)@.capabilities
                },
                ..old(self)@
            }),
    {
        let codec = MediaCodecCapability {
            media_type: MediaType::Audio,
            codec_type: AudioCodec::Sbc.to_u8(),
            codec_info: config.to_bytes(),
        };
        self.capabilities.media_transport = true;
        self.capabilities.media_codec = Some(codec);
    }
}

// -----------------------------------------------------------------------------
// Session model
// -----------------------------------------------------------------------------

/// A command waiting for its answer.
#[derive(Clone, Copy, Debug, PartialEq, Eq, Structural)]
pub struct PendingTransaction {
    pub signal: u8,
    pub seid: Option<u8>,
}

/// The state of a session.
pub struct AvdtpSessionView {
    pub channel: L2capChannelView,
    pub initiator: bool,
    pub next_transaction: u8,
    pub local_seps: Seq<StreamEndpointView>,
    pub remote_seps: Seq<RemoteSepView>,
    /// Commands awaiting an answer, by transaction label
    pub pending: Map<u8, PendingTransaction>,
}

/// The channel after sending `bytes` (nothing is queued on a channel that is not open).
pub open spec fn sent(ch: L2capChannelView, bytes: Seq<u8>) -> L2capChannelView {
    if ch.state == L2capState::Open {
        L2capChannelView { tx_buffer: ch.tx_buffer.push(bytes), ..ch }
    } else {
        ch
    }
}

/// What sending on the channel answers.
pub open spec fn send_result(ch: L2capChannelView) -> Result<(), BluetoothError> {
    if ch.state == L2capState::Open { Ok(()) } else { Err(BluetoothError::NotConnected) }
}

/// The bytes of a single-packet signaling message.
pub open spec fn message_bytes(transaction: u8, message_type: AvdtpMessageType, signal: u8, payload: Seq<u8>) -> Seq<u8> {
    seq![avdtp_header(transaction, AvdtpPacketType::Single.code(), message_type.code()), signal & 0x3F] + payload
}

/// The session after answering a command.
pub open spec fn respond(s: AvdtpSessionView, transaction: u8, signal: u8, accept: bool, payload: Seq<u8>) -> AvdtpSessionView {
    let mt = if accept { AvdtpMessageType::ResponseAccept } else { AvdtpMessageType::ResponseReject };
    AvdtpSessionView { channel: sent(s.channel, message_bytes(transaction, mt, signal, payload)), ..s }
}

/// The session after sending a command, remembering it under its label
/// when `track` says so (with the endpoint it is about), and what the send answered.
pub open spec fn command_spec(s: AvdtpSessionView, signal: AvdtpSignal, payload: Seq<u8>, track: Option<Option<u8>>)
    -> (AvdtpSessionView, Result<(), BluetoothError>)
{
    let t = s.next_transaction & 0x0F;
    let pending = match track {
        Some(seid) => s.pending.insert(t, PendingTransaction { signal: signal.code(), seid }),
        None => s.pending,
    };
    (
        AvdtpSessionView {
            next_transaction: s.next_transaction.wrapping_add(1),
            pending,
            channel: sent(s.channel, message_bytes(t, AvdtpMessageType::Command, signal.code(), payload)),
            ..s
        },
        send_result(s.channel),
    )
}

/// Index of the first local endpoint with this SEID, looking from `i` on.
pub open spec fn find_local_from(seps: Seq<StreamEndpointView>, seid: u8, i: int) -> Option<int>
    decreases seps.len() - i,
{
    if i < 0 || i >= seps.len() {
        None
    } else if seps[i].seid == seid {
        Some(i)
    } else {
        find_local_from(seps, seid, i + 1)
    }
}

/// Index of the first local endpoint with this SEID.
pub open spec fn find_local(seps: Seq<StreamEndpointView>, seid: u8) -> Option<int> {
    find_local_from(seps, seid, 0)
}

/// Index of the first remote endpoint with this SEID, looking from `i` on.
pub open spec fn find_remote_from(seps: Seq<RemoteSepView>, seid: u8, i: int) -> Option<int>
    decreases seps.len() - i,
{
    if i < 0 || i >= seps.len() {
        None
    } else if seps[i].seid == seid {
        Some(i)
    } else {
        find_remote_from(seps, seid, i + 1)
    }
}

/// Index of the first remote endpoint with this SEID.
pub open spec fn find_remote(seps: Seq<RemoteSepView>, seid: u8) -> Option<int> {
    find_remote_from(seps, seid, 0)
}

/// The two discovery bytes describing a local endpoint.
pub open spec fn sep_info(e: StreamEndpointView) -> Seq<u8> {
    seq![
        ((e.seid & 0x3F) << 2u8) | (if e.in_use { 0x02u8 } else { 0u8 }),
        ((e.media_type.code() << 4u8) | (e.sep_type.code() << 3u8)) as u8,
    ]
}

/// The answer to a discovery: every local endpoint's description, in order.
pub open spec fn discover_payload(seps: Seq<StreamEndpointView>) -> Seq<u8>
    decreases seps.len(),
{
    if seps.len() == 0 {
        Seq::empty()
    } else {
        discover_payload(seps.drop_last()) + sep_info(seps.last())
    }
}

/// The remote endpoint a discovery answer describes in two bytes.
pub open spec fn remote_of(b0: u8, b1: u8) -> RemoteSepView {
    RemoteSepView {
        seid: b0 >> 2u8,
        in_use: (b0 & 0x02u8) != 0,
        media_type: media_type_of(b1 >> 4u8),
        sep_type: if (b1 & 0x08u8) != 0 { SepType::Sink } else { SepType::Source },
        capabilities: None,
    }
}

/// The remote endpoints of a discovery answer, one per whole pair of bytes.
pub open spec fn discovered(payload: Seq<u8>) -> Seq<RemoteSepView>
    decreases payload.len(),
{
    if payload.len() < 2 {
        Seq::empty()
    } else {
        seq![remote_of(payload[0], payload[1])] + discovered(payload.subrange(2, payload.len() as int))
    }
}

/// The local endpoints with the first one of this SEID (if any) in a new state.
pub open spec fn set_local_state(seps: Seq<StreamEndpointView>, seid: Option<u8>, state: SepState) -> Seq<StreamEndpointView> {
    match seid {
        Some(id) => match find_local(seps, id) {
            Some(i) => seps.update(i, StreamEndpointView { state, ..seps[i] }),
            None => seps,
        },
        None => seps,
    }
}

/// Local endpoints after a start (from `from` to `to`) naming each SEID of
/// `payload` in turn, and the state changes it makes.
pub open spec fn switch_all(seps: Seq<StreamEndpointView>, payload: Seq<u8>, from: SepState, to: SepState)
    -> (Seq<StreamEndpointView>, Seq<(u8, SepState)>)
    decreases payload.len(),
{
    if payload.len() == 0 {
        (seps, Seq::empty())
    } else {
        let prev = switch_all(seps, payload.drop_last(), from, to);
        let seid = payload.last() >> 2u8;
        match find_local(prev.0, seid) {
            Some(i) => if prev.0[i].state == from {
                (prev.0.update(i, StreamEndpointView { state: to, ..prev.0[i] }), prev.1.push((seid, to)))
            } else {
                prev
            },
            None => prev,
        }
    }
}

/// An endpoint released by a close or an abort.
pub open spec fn released(e: StreamEndpointView) -> StreamEndpointView {
    StreamEndpointView { in_use: false, state: SepState::Idle, configuration: None, ..e }
}

/// The session after a command with this label, signal and payload
/// arrives, and the endpoint state changes it makes.
pub open spec fn command_handled(s: AvdtpSessionView, t: u8, signal: u8, payload: Seq<u8>)
    -> (AvdtpSessionView, Seq<(u8, SepState)>)
{
    let none = Seq::<(u8, SepState)>::empty();
    let bad_seid = seq![AvdtpError::BadAcpSeid.code()];
    let seps = s.local_seps;
    if signal == AvdtpSignal::Discover.code() {
        (respond(s, t, signal, true, discover_payload(seps)), none)
    } else if signal == AvdtpSignal::GetCapabilities.code() || signal == AvdtpSignal::GetAllCapabilities.code() {
        if payload.len() == 0 {
            (respond(s, t, signal, false, bad_seid), none)
        } else {
            match find_local(seps, payload[0] >> 2u8) {
                Some(i) => (respond(s, t, signal, true, caps_bytes(seps[i].capabilities)), none),
                None => (respond(s, t, signal, false, bad_seid), none),
            }
        }
    } else if signal == AvdtpSignal::SetConfiguration.code() {
        if payload.len() < 4 {
            (respond(s, t, signal, false, seq![AvdtpError::BadLength.code()]), none)
        } else {
            match find_local(seps, payload[0] >> 2u8) {
                Some(i) => if seps[i].in_use {
                    (respond(s, t, signal, false, seq![AvdtpError::SepInUse.code()]), none)
                } else {
                    let e = StreamEndpointView {
                        in_use: true,
                        remote_seid: payload[1] >> 2u8,
                        configuration: Some(caps_parse(payload.subrange(2, payload.len() as int), default_caps())),
                        state: SepState::Configured,
                        ..seps[i]
                    };
                    (respond(AvdtpSessionView { local_seps: seps.update(i, e), ..s }, t, signal, true, Seq::empty()), none)
                },
                None => (respond(s, t, signal, false, bad_seid), none),
            }
        }
    } else if signal == AvdtpSignal::Open.code() {
        if payload.len() == 0 {
            (respond(s, t, signal, false, bad_seid), none)
        } else {
            let seid = payload[0] >> 2u8;
            match find_local(seps, seid) {
                Some(i) => if seps[i].state != SepState::Configured {
                    (respond(s, t, signal, false, seq![AvdtpError::BadState.code()]), none)
                } else {
                    let e = StreamEndpointView { state: SepState::Open, ..seps[i] };
                    (respond(AvdtpSessionView { local_seps: seps.update(i, e), ..s }, t, signal, true, Seq::empty()),
                        seq![(seid, SepState::Open)])
                },
                None => (respond(s, t, signal, false, bad_seid), none),
            }
        }
    } else if signal == AvdtpSignal::Start.code() {
        let r = switch_all(seps, payload, SepState::Open, SepState::Streaming);
        (respond(AvdtpSessionView { local_seps: r.0, ..s }, t, signal, true, Seq::empty()), r.1)
    } else if signal == AvdtpSignal::Suspend.code() {
        let r = switch_all(seps, payload, SepState::Streaming, SepState::Open);
        (respond(AvdtpSessionView { local_seps: r.0, ..s }, t, signal, true, Seq::empty()), r.1)
    } else if signal == AvdtpSignal::Close.code() {
        if payload.len() == 0 {
            (s, none)
        } else {
            let seid = payload[0] >> 2u8;
            match find_local(seps, seid) {
                Some(i) => (respond(AvdtpSessionView { local_seps: seps.update(i, released(seps[i])), ..s }, t, signal, true, Seq::empty()),
                    seq![(seid, SepState::Idle)]),
                None => (respond(s, t, signal, true, Seq::empty()), none),
            }
        }
    } else if signal == AvdtpSignal::Abort.code() {
        if payload.len() == 0 {
            (s, none)
        } else {
            match find_local(seps, payload[0] >> 2u8) {
                Some(i) => (respond(AvdtpSessionView { local_seps: seps.update(i, released(seps[i])), ..s }, t, signal, true, Seq::empty()), none),
                None => (respond(s, t, signal, true, Seq::empty()), none),
            }
        }
    } else if signal == AvdtpSignal::DelayReport.code() {
        (respond(s, t, signal, true, Seq::empty()), none)
    } else {
        (respond(s, t, signal, false, Seq::empty()), none)
    }
}

/// The session after an accepting answer with this label and payload.
pub open spec fn response_accepted(s: AvdtpSessionView, t: u8, payload: Seq<u8>) -> AvdtpSessionView {
    if !s.pending.dom().contains(t) {
        s
    } else {
        let p = s.pending[t];
        let s1 = AvdtpSessionView { pending: s.pending.remove(t), ..s };
        if p.signal == AvdtpSignal::Discover.code() {
            AvdtpSessionView { remote_seps: discovered(payload), ..s1 }
        } else if p.signal == AvdtpSignal::GetCapabilities.code() {
            match p.seid {
                Some(seid) => match find_remote(s1.remote_seps, seid) {
                    Some(i) => AvdtpSessionView {
                        remote_seps: s1.remote_seps.update(i, RemoteSepView {
                            capabilities: Some(caps_parse(payload, default_caps())),
                            ..s1.remote_seps[i]
                        }),
                        ..s1
                    },
                    None => s1,
                },
                None => s1,
            }
        } else if p.signal == AvdtpSignal::SetConfiguration.code() {
            AvdtpSessionView { local_seps: set_local_state(s1.local_seps, p.seid, SepState::Configured), ..s1 }
        } else if p.signal == AvdtpSignal::Open.code() {
            AvdtpSessionView { local_seps: set_local_state(s1.local_seps, p.seid, SepState::Open), ..s1 }
        } else if p.signal == AvdtpSignal::Start.code() {
            AvdtpSessionView { local_seps: set_local_state(s1.local_seps, p.seid, SepState::Streaming), ..s1 }
        } else if p.signal == AvdtpSignal::Suspend.code() {
            AvdtpSessionView { local_seps: set_local_state(s1.local_seps, p.seid, SepState::Open), ..s1 }
        } else if p.signal == AvdtpSignal::Close.code() {
            match p.seid {
                Some(seid) => match find_local(s1.local_seps, seid) {
                    Some(i) => AvdtpSessionView {
                        local_seps: s1.local_seps.update(i, StreamEndpointView {
                            in_use: false,
                            state: SepState::Idle,
                            ..s1.local_seps[i]
                        }),
                        ..s1
                    },
                    None => s1,
                },
                None => s1,
            }
        } else {
            s1
        }
    }
}

/// The session after a signaling message arrives, and the endpoint state
/// changes it makes. A message shorter than its two-byte header is ignored.
pub open spec fn signaling_handled(s: AvdtpSessionView, data: Seq<u8>) -> (AvdtpSessionView, Seq<(u8, SepState)>) {
    if data.len() < 2 {
        (s, Seq::empty())
    } else {
        let t = (data[0] >> 4u8) & 0x0F;
        let signal = data[1] & 0x3F;
        let payload = data.subrange(2, data.len() as int);
        match message_type_of(data[0] & 0x03) {
            AvdtpMessageType::Command => command_handled(s, t, signal, payload),
            AvdtpMessageType::ResponseAccept => (response_accepted(s, t, payload), Seq::empty()),
            AvdtpMessageType::ResponseReject => (AvdtpSessionView { pending: s.pending.remove(t), ..s }, Seq::empty()),
            AvdtpMessageType::GeneralReject => (s, Seq::empty()),
        }
    }
}

// -----------------------------------------------------------------------------
// Session
// -----------------------------------------------------------------------------

/// The map of pending commands that sixteen label slots stand for.
pub open spec fn pending_map(slots: Seq<Option<PendingTransaction>>) -> Map<u8, PendingTransaction> {
    Map::new(|k: u8| k < 16 && slots[k as int] is Some, |k: u8| slots[k as int]->Some_0)
}

/// AVDTP session
pub struct AvdtpSession {
    /// Signaling L2CAP channel
    signaling_channel: L2capChannel,
    /// Are we initiator
    pub initiator: bool,
    /// Next transaction label
    next_transaction: u8,
    /// Local stream endpoints
    local_seps: Vec<StreamEndpoint>,
    /// Remote stream endpoints
    remote_seps: Vec<RemoteSep>,
    /// Pending transactions, one slot per four-bit transaction label
    pending: Vec<Option<PendingTransaction>>,
}

impl View for AvdtpSession {
    type V = AvdtpSessionView;

    closed spec fn view(&self) -> AvdtpSessionView {
        AvdtpSessionView {
            channel: self.signaling_channel@,
            initiator: self.initiator,
            next_transaction: self.next_transaction,
            local_seps: self.local_seps@.map_values(|e: StreamEndpoint| e@),
            remote_seps: self.remote_seps@.map_values(|r: RemoteSep| r@),
            pending: pending_map(self.pending@),
        }
    }
}

impl AvdtpSession {
    /// The pending table has a slot for every transaction label.
    pub closed spec fn wf(&self) -> bool {
        self.pending@.len() == 16
    }

    /// Create new session
    pub fn new(signaling_channel: L2capChannel, initiator: bool) -> (r: Self)
        ensures
            r.wf(),
            r@ == (AvdtpSessionView {
                channel: signaling_channel@,
                initiator,
                next_transaction: 0,
                local_seps: Seq::empty(),
                remote_seps: Seq::empty(),
                pending: Map::empty(),
            }),
    {
        let mut pending: Vec<Option<PendingTransaction>> = Vec::new();
        let mut i: usize = 0;
        while i < 16
            invariant
                i <= 16,
                pending@.len() == i,
                forall|k: int| 0 <= k < i ==> pending@[k] is None,
            decreases 16 - i,
        {
            pending.push(None);
            i = i + 1;
        }
        let r = AvdtpSession {
            signaling_channel,
            initiator,
            next_transaction: 0,
            local_seps: Vec::new(),
            remote_seps: Vec::new(),
            pending,
        };
        assert(r@.local_seps =~= Seq::<StreamEndpointView>::empty());
        assert(r@.remote_seps =~= Seq::<RemoteSepView>::empty());
        assert(r@.pending =~= Map::<u8, PendingTransaction>::empty());
        r
    }

    /// Allocate transaction label
    fn alloc_transaction(&mut self) -> (t: u8)
        requires
            old(self).wf(),
        ensures
            final(self).wf(),
            t == old(self)@.next_transaction & 0x0F,
            t < 16,
            final(self)@ == (AvdtpSessionView { next_transaction: old(self)@.next_transaction.wrapping_add(1), ..old(self)@ }),
    {
        let t = self.next_transaction;
        self.next_transaction = self.next_transaction.wrapping_add(1);
        assert(t & 0x0F < 16) by (bit_vector);
        t & 0x0F
    }

    /// Register local SEP
    pub fn register_sep(&mut self, sep: StreamEndpoint)
        requires
            old(self).wf(),
        ensures
            final(self).wf(),
            final(self)@ == (AvdtpSessionView { local_seps: old(self)@.local_seps.push(sep@), ..old(self)@ }),
    {
        self.local_seps.push(sep);
        assert(self@.local_seps =~= old(self)@.local_seps.push(sep@));
    }

    /// Send packet
    fn send_packet(&mut self, packet: &AvdtpPacket) -> (r: Result<(), BluetoothError>)
        requires
            old(self).wf(),
        ensures
            final(self).wf(),
            r == send_result(old(self)@.channel),
            final(self)@ == (AvdtpSessionView {
                channel: sent(old(self)@.channel, seq![
                    avdtp_header(packet.transaction, packet.packet_type.code(), packet.message_type.code()),
                    packet.signal & 0x3F,
                ] + packet.payload@),
                ..old(self)@
            }),
    {
        let data = packet.to_bytes();
        self.signaling_channel.send(data)
    }

    /// Send a command, remembering it under its label when `track` says so
    fn send_command(&mut self, signal: AvdtpSignal, payload: Vec<u8>, track: Option<Option<u8>>) -> (r: Result<(), BluetoothError>)
        requires
            old(self).wf(),
        ensures
            final(self).wf(),
            (final(self)@, r) == command_spec(old(self)@, signal, payload@, track),
    {
        let transaction = self.alloc_transaction();
        let packet = AvdtpPacket::new(transaction, AvdtpMessageType::Command, signal, payload);
        match track {
            Some(seid) => {
                let ghost before = self@.pending;
                self.pending.set(transaction as usize, Some(PendingTransaction { signal: signal.to_u8(), seid }));
                assert(self@.pending =~= before.insert(transaction, PendingTransaction { signal: signal.code(), seid }));
            },
            None => {},
        }
        self.send_packet(&packet)
    }

    /// Send response
    fn send_response(&mut self, transaction: u8, signal: u8, accept: bool, payload: Vec<u8>) -> (r: Result<(), BluetoothError>)
        requires
            old(self).wf(),
        ensures
            final(self).wf(),
            r == send_result(old(self)@.channel),
            final(self)@ == respond(old(self)@, transaction, signal, accept, payload@),
    {
        let message_type = if accept { AvdtpMessageType::ResponseAccept } else { AvdtpMessageType::ResponseReject };
        let packet = AvdtpPacket { transaction, packet_type: AvdtpPacketType::Single, message_type, signal, payload };
        self.send_packet(&packet)
    }

    /// Discover remote endpoints
    pub fn discover(&mut self) -> (r: Result<(), BluetoothError>)
        requires
            old(self).wf(),
        ensures
            final(self).wf(),
            (final(self)@, r) == command_spec(old(self)@, AvdtpSignal::Discover, Seq::empty(), Some(None)),
    {
        let r = self.send_command(AvdtpSignal::Discover, Vec::new(), Some(None));
        r
    }

    /// Get capabilities of remote endpoint
    pub fn get_capabilities(&mut self, seid: u8) -> (r: Result<(), BluetoothError>)
        requires
            old(self).wf(),
        ensures
            final(self).wf(),
            (final(self)@, r) == command_spec(old(self)@, AvdtpSignal::GetCapabilities, seq![seid << 2u8], Some(Some(seid))),
    {
        let mut payload: Vec<u8> = Vec::new();
        payload.push(seid << 2);
        assert(payload@ =~= seq![seid << 2u8]);
        self.send_command(AvdtpSignal::GetCapabilities, payload, Some(Some(seid)))
    }

    /// Set configuration
    pub fn set_configuration(&mut self, acp_seid: u8, int_seid: u8, caps: &SepCapabilities) -> (r: Result<(), BluetoothError>)
        requires
            old(self).wf(),
        ensures
            final(self).wf(),
            (final(self)@, r) == command_spec(old(self)@, AvdtpSignal::SetConfiguration,
                seq![acp_seid << 2u8, int_seid << 2u8] + caps_bytes(caps@), Some(Some(acp_seid))),
    {
        let mut payload: Vec<u8> = Vec::new();
        payload.push(acp_seid << 2);
        payload.push(int_seid << 2);
        let cb = caps.to_bytes();
        crate::wire::extend_bytes(&mut payload, cb.as_slice());
        assert(payload@ =~= seq![acp_seid << 2u8, int_seid << 2u8] + caps_bytes(caps@));
        self.send_command(AvdtpSignal::SetConfiguration, payload, Some(Some(acp_seid)))
    }

    /// Open stream
    pub fn open(&mut self, seid: u8) -> (r: Result<(), BluetoothError>)
        requires
            old(self).wf(),
        ensures
            final(self).wf(),
            (final(self)@, r) == command_spec(old(self)@, AvdtpSignal::Open, seq![seid << 2u8], Some(Some(seid))),
    {
        let mut payload: Vec<u8> = Vec::new();
        payload.push(seid << 2);
        assert(payload@ =~= seq![seid << 2u8]);
        self.send_command(AvdtpSignal::Open, payload, Some(Some(seid)))
    }

    /// Start streaming
    pub fn start(&mut self, seid: u8) -> (r: Result<(), BluetoothError>)
        requires
            old(self).wf(),
        ensures
            final(self).wf(),
            (final(self)@, r) == command_spec(old(self)@, AvdtpSignal::Start, seq![seid << 2u8], Some(Some(seid))),
    {
        let mut payload: Vec<u8> = Vec::new();
        payload.push(seid << 2);
        assert(payload@ =~= seq![seid << 2u8]);
        self.send_command(AvdtpSignal::Start, payload, Some(Some(seid)))
    }

    /// Suspend streaming
    pub fn suspend(&mut self, seid: u8) -> (r: Result<(), BluetoothError>)
        requires
            old(self).wf(),
        ensures
            final(self).wf(),
            (final(self)@, r) == command_spec(old(self)@, AvdtpSignal::Suspend, seq![seid << 2u8], Some(Some(seid))),
    {
        let mut payload: Vec<u8> = Vec::new();
        payload.push(seid << 2);
        assert(payload@ =~= seq![seid << 2u8]);
        self.send_command(AvdtpSignal::Suspend, payload, Some(Some(seid)))
    }

    /// Close stream
    pub fn close(&mut self, seid: u8) -> (r: Result<(), BluetoothError>)
        requires
            old(self).wf(),
        ensures
            final(self).wf(),
            (final(self)@, r) == command_spec(old(self)@, AvdtpSignal::Close, seq![seid << 2u8], Some(Some(seid))),
    {
        let mut payload: Vec<u8> = Vec::new();
        payload.push(seid << 2);
        assert(payload@ =~= seq![seid << 2u8]);
        self.send_command(AvdtpSignal::Close, payload, Some(Some(seid)))
    }

    /// Abort stream (not remembered: no answer is awaited)
    pub fn abort(&mut self, seid: u8) -> (r: Result<(), BluetoothError>)
        requires
            old(self).wf(),
        ensures
            final(self).wf(),
            (final(self)@, r) == command_spec(old(self)@, AvdtpSignal::Abort, seq![seid << 2u8], None),
    {
        let mut payload: Vec<u8> = Vec::new();
        payload.push(seid << 2);
        assert(payload@ =~= seq![seid << 2u8]);
        self.send_command(AvdtpSignal::Abort, payload, None)
    }

    /// Send delay report (big-endian delay after the SEID)
    pub fn delay_report(&mut self, seid: u8, delay: u16) -> (r: Result<(), BluetoothError>)
        requires
            old(self).wf(),
        ensures
            final(self).wf(),
            (final(self)@, r) == command_spec(old(self)@, AvdtpSignal::DelayReport,
                seq![seid << 2u8, (delay / 256) as u8, (delay % 256) as u8], None),
    {
        let mut payload: Vec<u8> = Vec::new();
        payload.push(seid << 2);
        payload.push(crate::wire::hi8(delay));
        payload.push(crate::wire::lo8(delay));
        assert(payload@ =~= seq![seid << 2u8, (delay / 256) as u8, (delay % 256) as u8]);
        self.send_command(AvdtpSignal::DelayReport, payload, None)
    }

    /// Get remote SEPs
    pub fn remote_seps(&self) -> (r: Vec<RemoteSep>)
        ensures
            r@.map_values(|s: RemoteSep| s@) == self@.remote_seps,
    {
        let mut out: Vec<RemoteSep> = Vec::new();
        let mut i: usize = 0;
        while i < self.remote_seps.len()
            invariant
                i <= self.remote_seps@.len(),
                out@.len() == i,
                forall|k: int| 0 <= k < i ==> (#[trigger] out@[k])@ == self.remote_seps@[k]@,
            decreases self.remote_seps@.len() - i,
        {
            out.push(copy_remote(&self.remote_seps[i]));
            i = i + 1;
        }
        assert(out@.map_values(|s: RemoteSep| s@) =~= self@.remote_seps);
        out
    }

    /// Index of the first local endpoint with this SEID
    fn find_local_index(&self, seid: u8) -> (r: Option<usize>)
        ensures
            match r {
                Some(i) => find_local(self@.local_seps, seid) == Some(i as int) && i < self@.local_seps.len(),
                None => find_local(self@.local_seps, seid) is None,
            },
    {
        let mut i: usize = 0;
        while i < self.local_seps.len()
            invariant
                i <= self.local_seps@.len(),
                find_local(self@.local_seps, seid) == find_local_from(self@.local_seps, seid, i as int),
            decreases self.local_seps@.len() - i,
        {
            if self.local_seps[i].seid == seid {
                return Some(i);
            }
            i = i + 1;
        }
        None
    }

    /// Index of the first remote endpoint with this SEID
    fn find_remote_index(&self, seid: u8) -> (r: Option<usize>)
        ensures
            match r {
                Some(i) => find_remote(self@.remote_seps, seid) == Some(i as int) && i < self@.remote_seps.len(),
                None => find_remote(self@.remote_seps, seid) is None,
            },
    {
        let mut i: usize = 0;
        while i < self.remote_seps.len()
            invariant
                i <= self.remote_seps@.len(),
                find_remote(self@.remote_seps, seid) == find_remote_from(self@.remote_seps, seid, i as int),
            decreases self.remote_seps@.len() - i,
        {
            if self.remote_seps[i].seid == seid {
                return Some(i);
            }
            i = i + 1;
        }
        None
    }

    /// Set the state of the local endpoint at `i`
    fn set_sep_state_at(&mut self, i: usize, state: SepState)
        requires
            old(self).wf(),
            i < old(self)@.local_seps.len(),
        ensures
            final(self).wf(),
            final(self)@ == (AvdtpSessionView {
                local_seps: old(self)@.local_seps.update(i as int, StreamEndpointView { state, ..old(self)@.local_seps[i as int] }),
                ..old(self)@
            }),
    {
        self.local_seps[i].set_state(state);
        assert(self@.local_seps =~= old(self)@.local_seps.update(i as int, StreamEndpointView { state, ..old(self)@.local_seps[i as int] }));
    }

    /// Release the local endpoint at `i`: not in use, idle, no configuration
    fn release_sep_at(&mut self, i: usize)
        requires
            old(self).wf(),
            i < old(self)@.local_seps.len(),
        ensures
            final(self).wf(),
            final(self)@ == (AvdtpSessionView {
                local_seps: old(self)@.local_seps.update(i as int, released(old(self)@.local_seps[i as int])),
                ..old(self)@
            }),
    {
        self.local_seps[i].set_in_use(false);
        self.local_seps[i].set_state(SepState::Idle);
        self.local_seps[i].configuration = None;
        assert(self@.local_seps =~= old(self)@.local_seps.update(i as int, released(old(self)@.local_seps[i as int])));
    }

    /// Set the state of the first local endpoint with this SEID, if any
    fn set_state_of(&mut self, seid: Option<u8>, state: SepState)
        requires
            old(self).wf(),
        ensures
            final(self).wf(),
            final(self)@ == (AvdtpSessionView { local_seps: set_local_state(old(self)@.local_seps, seid, state), ..old(self)@ }),
    {
        if let Some(id) = seid {
            if let Some(i) = self.find_local_index(id) {
                self.set_sep_state_at(i, state);
                return;
            }
        }
        assert(self@.local_seps =~= set_local_state(old(self)@.local_seps, seid, state));
    }

    /// Take the pending command with this label, if any
    fn take_pending(&mut self, t: u8) -> (r: Option<PendingTransaction>)
        requires
            old(self).wf(),
        ensures
            final(self).wf(),
            r == (if old(self)@.pending.dom().contains(t) { Some(old(self)@.pending[t]) } else { None }),
            final(self)@ == (AvdtpSessionView { pending: old(self)@.pending.remove(t), ..old(self)@ }),
    {
        if t < 16 {
            let p = self.pending[t as usize];
            self.pending.set(t as usize, None);
            assert(self@.pending =~= old(self)@.pending.remove(t));
            p
        } else {
            assert(self@.pending =~= old(self)@.pending.remove(t));
            None
        }
    }

    /// Handle incoming signaling data; the endpoint state changes it made, in order
    pub fn handle_signaling(&mut self, data: &[u8]) -> (notes: Vec<(u8, SepState)>)
        requires
            old(self).wf(),
        ensures
            final(self).wf(),
            (final(self)@, notes@) == signaling_handled(old(self)@, data@),
    {
        let mut notes: Vec<(u8, SepState)> = Vec::new();
        if let Some(packet) = AvdtpPacket::from_bytes(data) {
            match packet.message_type {
                AvdtpMessageType::Command => self.handle_command(&packet, &mut notes),
                AvdtpMessageType::ResponseAccept => self.handle_response_accept(&packet),
                AvdtpMessageType::ResponseReject => self.handle_response_reject(&packet),
                AvdtpMessageType::GeneralReject => self.handle_general_reject(&packet),
            }
            assert(notes@ =~= signaling_handled(old(self)@, data@).1);
        }
        notes
    }

    fn handle_command(&mut self, packet: &AvdtpPacket, notes: &mut Vec<(u8, SepState)>)
        requires
            old(self).wf(),
        ensures
            final(self).wf(),
            final(self)@ == command_handled(old(self)@, packet.transaction, packet.signal, packet.payload@).0,
            final(notes)@ == old(notes)@ + command_handled(old(self)@, packet.transaction, packet.signal, packet.payload@).1,
    {
        let x = packet.signal;
        if x == AvdtpSignal::Discover.to_u8() {
            self.handle_discover_cmd(packet);
        } else if x == AvdtpSignal::GetCapabilities.to_u8() || x == AvdtpSignal::GetAllCapabilities.to_u8() {
            self.handle_get_caps_cmd(packet);
        } else if x == AvdtpSignal::SetConfiguration.to_u8() {
            self.handle_set_config_cmd(packet);
        } else if x == AvdtpSignal::Open.to_u8() {
            self.handle_open_cmd(packet, notes);
            return;
        } else if x == AvdtpSignal::Start.to_u8() {
            self.handle_start_cmd(packet, notes);
            return;
        } else if x == AvdtpSignal::Suspend.to_u8() {
            self.handle_suspend_cmd(packet, notes);
            return;
        } else if x == AvdtpSignal::Close.to_u8() {
            self.handle_close_cmd(packet, notes);
            return;
        } else if x == AvdtpSignal::Abort.to_u8() {
            self.handle_abort_cmd(packet);
        } else if x == AvdtpSignal::DelayReport.to_u8() {
            self.handle_delay_report_cmd(packet);
        } else {
            // general reject
            let empty: Vec<u8> = Vec::new();
            assert(empty@ =~= Seq::<u8>::empty());
            let _ = self.send_response(packet.transaction, packet.signal, false, empty);
        }
        assert(notes@ =~= old(notes)@ + command_handled(old(self)@, packet.transaction, packet.signal, packet.payload@).1);
    }

    fn handle_discover_cmd(&mut self, packet: &AvdtpPacket)
        requires
            old(self).wf(),
        ensures
            final(self).wf(),
            final(self)@ == respond(old(self)@, packet.transaction, packet.signal, true, discover_payload(old(self)@.local_seps)),
    {
        let ghost seps = self@.local_seps;
        let mut response: Vec<u8> = Vec::new();
        let mut i: usize = 0;
        while i < self.local_seps.len()
            invariant
                i <= self.local_seps@.len(),
                seps == self@.local_seps,
                response@ == discover_payload(seps.subrange(0, i as int)),
            decreases self.local_seps@.len() - i,
        {
            let sep = &self.local_seps[i];
            let info = ((sep.seid & 0x3F) << 2) | (if sep.is_in_use() { 0x02u8 } else { 0u8 });
            let type_media = (sep.media_type.to_u8() << 4) | (sep.sep_type.to_u8() << 3);
            response.push(info);
            response.push(type_media);
            proof {
                assert(seps.subrange(0, i + 1).drop_last() =~= seps.subrange(0, i as int));
            }
            i = i + 1;
            assert(response@ =~= discover_payload(seps.subrange(0, i as int)));
        }
        assert(seps.subrange(0, seps.len() as int) =~= seps);
        let _ = self.send_response(packet.transaction, packet.signal, true, response);
    }

    fn handle_get_caps_cmd(&mut self, packet: &AvdtpPacket)
        requires
            old(self).wf(),
            packet.signal == AvdtpSignal::GetCapabilities.code() || packet.signal == AvdtpSignal::GetAllCapabilities.code(),
        ensures
            final(self).wf(),
            final(self)@ == command_handled(old(self)@, packet.transaction, packet.signal, packet.payload@).0,
    {
        if packet.payload.len() == 0 {
            let mut p: Vec<u8> = Vec::new();
            p.push(AvdtpError::BadAcpSeid.to_u8());
            assert(p@ =~= seq![AvdtpError::BadAcpSeid.code()]);
            let _ = self.send_response(packet.transaction, packet.signal, false, p);
            return;
        }
        let seid = packet.payload[0] >> 2;
        match self.find_local_index(seid) {
            Some(i) => {
                let caps_data = self.local_seps[i].capabilities.to_bytes();
                let _ = self.send_response(packet.transaction, packet.signal, true, caps_data);
            },
            None => {
                let mut p: Vec<u8> = Vec::new();
                p.push(AvdtpError::BadAcpSeid.to_u8());
                assert(p@ =~= seq![AvdtpError::BadAcpSeid.code()]);
                let _ = self.send_response(packet.transaction, packet.signal, false, p);
            },
        }
    }

    fn handle_set_config_cmd(&mut self, packet: &AvdtpPacket)
        requires
            old(self).wf(),
            packet.signal == AvdtpSignal::SetConfiguration.code(),
        ensures
            final(self).wf(),
            final(self)@ == command_handled(old(self)@, packet.transaction, packet.signal, packet.payload@).0,
    {
        if packet.payload.len() < 4 {
            let mut p: Vec<u8> = Vec::new();
            p.push(AvdtpError::BadLength.to_u8());
            assert(p@ =~= seq![AvdtpError::BadLength.code()]);
            let _ = self.send_response(packet.transaction, packet.signal, false, p);
            return;
        }
        let acp_seid = packet.payload[0] >> 2;
        let int_seid = packet.payload[1] >> 2;
        let rest = crate::wire::copy_range(packet.payload.as_slice(), 2, packet.payload.len());
        let caps = SepCapabilities::from_bytes(rest.as_slice());
        match self.find_local_index(acp_seid) {
            Some(i) => {
                if self.local_seps[i].is_in_use() {
                    let mut p: Vec<u8> = Vec::new();
                    p.push(AvdtpError::SepInUse.to_u8());
                    assert(p@ =~= seq![AvdtpError::SepInUse.code()]);
                    let _ = self.send_response(packet.transaction, packet.signal, false, p);
                    return;
                }
                let ghost s0 = self@;
                self.local_seps[i].set_in_use(true);
                self.local_seps[i].remote_seid = int_seid;
                self.local_seps[i].configuration = Some(caps);
                self.local_seps[i].set_state(SepState::Configured);
                assert(self@.local_seps =~= s0.local_seps.update(i as int, StreamEndpointView {
                    in_use: true,
                    remote_seid: int_seid,
                    configuration: Some(caps_parse(packet.payload@.subrange(2, packet.payload@.len() as int), default_caps())),
                    state: SepState::Configured,
                    ..s0.local_seps[i as int]
                }));
                let empty: Vec<u8> = Vec::new();
                assert(empty@ =~= Seq::<u8>::empty());
                let _ = self.send_response(packet.transaction, packet.signal, true, empty);
            },
            None => {
                let mut p: Vec<u8> = Vec::new();
                p.push(AvdtpError::BadAcpSeid.to_u8());
                assert(p@ =~= seq![AvdtpError::BadAcpSeid.code()]);
                let _ = self.send_response(packet.transaction, packet.signal, false, p);
            },
        }
    }

    fn handle_open_cmd(&mut self, packet: &AvdtpPacket, notes: &mut Vec<(u8, SepState)>)
        requires
            old(self).wf(),
            packet.signal == AvdtpSignal::Open.code(),
        ensures
            final(self).wf(),
            final(self)@ == command_handled(old(self)@, packet.transaction, packet.signal, packet.payload@).0,
            final(notes)@ == old(notes)@ + command_handled(old(self)@, packet.transaction, packet.signal, packet.payload@).1,
    {
        if packet.payload.len() == 0 {
            let mut p: Vec<u8> = Vec::new();
            p.push(AvdtpError::BadAcpSeid.to_u8());
            assert(p@ =~= seq![AvdtpError::BadAcpSeid.code()]);
            let _ = self.send_response(packet.transaction, packet.signal, false, p);
            assert(notes@ =~= old(notes)@ + Seq::<(u8, SepState)>::empty());
            return;
        }
        let seid = packet.payload[0] >> 2;
        match self.find_local_index(seid) {
            Some(i) => {
                if self.local_seps[i].state() != SepState::Configured {
                    let mut p: Vec<u8> = Vec::new();
                    p.push(AvdtpError::BadState.to_u8());
                    assert(p@ =~= seq![AvdtpError::BadState.code()]);
                    let _ = self.send_response(packet.transaction, packet.signal, false, p);
                    assert(notes@ =~= old(notes)@ + Seq::<(u8, SepState)>::empty());
                    return;
                }
                self.set_sep_state_at(i, SepState::Open);
                let empty: Vec<u8> = Vec::new();
                assert(empty@ =~= Seq::<u8>::empty());
                let _ = self.send_response(packet.transaction, packet.signal, true, empty);
                notes.push((seid, SepState::Open));
                assert(notes@ =~= old(notes)@ + seq![(seid, SepState::Open)]);
            },
            None => {
                let mut p: Vec<u8> = Vec::new();
                p.push(AvdtpError::BadAcpSeid.to_u8());
                assert(p@ =~= seq![AvdtpError::BadAcpSeid.code()]);
                let _ = self.send_response(packet.transaction, packet.signal, false, p);
                assert(notes@ =~= old(notes)@ + Seq::<(u8, SepState)>::empty());
            },
        }
    }

    /// Move each endpoint the payload names from `from` to `to`
    fn switch_seps(&mut self, payload: &[u8], from: SepState, to: SepState, notes: &mut Vec<(u8, SepState)>)
        requires
            old(self).wf(),
        ensures
            final(self).wf(),
            final(self)@ == (AvdtpSessionView { local_seps: switch_all(old(self)@.local_seps, payload@, from, to).0, ..old(self)@ }),
            final(notes)@ == old(notes)@ + switch_all(old(self)@.local_seps, payload@, from, to).1,
    {
        let ghost s0 = self@;
        let ghost n0 = notes@;
        let mut k: usize = 0;
        assert(payload@.subrange(0, 0) =~= Seq::<u8>::empty());
        assert(notes@ =~= n0 + Seq::<(u8, SepState)>::empty());
        while k < payload.len()
            invariant
                k <= payload@.len(),
                self.wf(),
                self@ == (AvdtpSessionView { local_seps: switch_all(s0.local_seps, payload@.subrange(0, k as int), from, to).0, ..s0 }),
                notes@ == n0 + switch_all(s0.local_seps, payload@.subrange(0, k as int), from, to).1,
            decreases payload@.len() - k,
        {
            let seid = payload[k] >> 2;
            assert(payload@.subrange(0, k + 1).drop_last() =~= payload@.subrange(0, k as int));
            let ghost prev = switch_all(s0.local_seps, payload@.subrange(0, k as int), from, to);
            match self.find_local_index(seid) {
                Some(i) => {
                    if self.local_seps[i].state() == from {
                        self.set_sep_state_at(i, to);
                        notes.push((seid, to));
                        assert(notes@ =~= n0 + prev.1.push((seid, to)));
                    }
                },
                None => {},
            }
            k = k + 1;
        }
        assert(payload@.subrange(0, payload@.len() as int) =~= payload@);
    }

    fn handle_start_cmd(&mut self, packet: &AvdtpPacket, notes: &mut Vec<(u8, SepState)>)
        requires
            old(self).wf(),
            packet.signal == AvdtpSignal::Start.code(),
        ensures
            final(self).wf(),
            final(self)@ == command_handled(old(self)@, packet.transaction, packet.signal, packet.payload@).0,
            final(notes)@ == old(notes)@ + command_handled(old(self)@, packet.transaction, packet.signal, packet.payload@).1,
    {
        self.switch_seps(packet.payload.as_slice(), SepState::Open, SepState::Streaming, notes);
        let empty: Vec<u8> = Vec::new();
        assert(empty@ =~= Seq::<u8>::empty());
        let _ = self.send_response(packet.transaction, packet.signal, true, empty);
    }

    fn handle_suspend_cmd(&mut self, packet: &AvdtpPacket, notes: &mut Vec<(u8, SepState)>)
        requires
            old(self).wf(),
            packet.signal == AvdtpSignal::Suspend.code(),
        ensures
            final(self).wf(),
            final(self)@ == command_handled(old(self)@, packet.transaction, packet.signal, packet.payload@).0,
            final(notes)@ == old(notes)@ + command_handled(old(self)@, packet.transaction, packet.signal, packet.payload@).1,
    {
        self.switch_seps(packet.payload.as_slice(), SepState::Streaming, SepState::Open, notes);
        let empty: Vec<u8> = Vec::new();
        assert(empty@ =~= Seq::<u8>::empty());
        let _ = self.send_response(packet.transaction, packet.signal, true, empty);
    }

    fn handle_close_cmd(&mut self, packet: &AvdtpPacket, notes: &mut Vec<(u8, SepState)>)
        requires
            old(self).wf(),
            packet.signal == AvdtpSignal::Close.code(),
        ensures
            final(self).wf(),
            final(self)@ == command_handled(old(self)@, packet.transaction, packet.signal, packet.payload@).0,
            final(notes)@ == old(notes)@ + command_handled(old(self)@, packet.transaction, packet.signal, packet.payload@).1,
    {
        if packet.payload.len() == 0 {
            assert(notes@ =~= old(notes)@ + Seq::<(u8, SepState)>::empty());
            return;
        }
        let seid = packet.payload[0] >> 2;
        match self.find_local_index(seid) {
            Some(i) => {
                self.release_sep_at(i);
                notes.push((seid, SepState::Idle));
                assert(notes@ =~= old(notes)@ + seq![(seid, SepState::Idle)]);
            },
            None => {
                assert(notes@ =~= old(notes)@ + Seq::<(u8, SepState)>::empty());
            },
        }
        let empty: Vec<u8> = Vec::new();
        assert(empty@ =~= Seq::<u8>::empty());
        let _ = self.send_response(packet.transaction, packet.signal, true, empty);
    }

    fn handle_abort_cmd(&mut self, packet: &AvdtpPacket)
        requires
            old(self).wf(),
            packet.signal == AvdtpSignal::Abort.code(),
        ensures
            final(self).wf(),
            final(self)@ == command_handled(old(self)@, packet.transaction, packet.signal, packet.payload@).0,
    {
        if packet.payload.len() == 0 {
            return;
        }
        let seid = packet.payload[0] >> 2;
        match self.find_local_index(seid) {
            Some(i) => {
                self.release_sep_at(i);
            },
            None => {},
        }
        let empty: Vec<u8> = Vec::new();
        assert(empty@ =~= Seq::<u8>::empty());
        let _ = self.send_response(packet.transaction, packet.signal, true, empty);
    }

    fn handle_delay_report_cmd(&mut self, packet: &AvdtpPacket)
        requires
            old(self).wf(),
        ensures
            final(self).wf(),
            final(self)@ == respond(old(self)@, packet.transaction, packet.signal, true, Seq::empty()),
    {
        // Accept delay report
        let empty: Vec<u8> = Vec::new();
        assert(empty@ =~= Seq::<u8>::empty());
        let _ = self.send_response(packet.transaction, packet.signal, true, empty);
    }

    fn handle_response_accept(&mut self, packet: &AvdtpPacket)
        requires
            old(self).wf(),
        ensures
            final(self).wf(),
            final(self)@ == response_accepted(old(self)@, packet.transaction, packet.payload@),
    {
        let pending = self.take_pending(packet.transaction);
        let p = match pending {
            Some(p) => p,
            None => {
                assert(self@.pending =~= old(self)@.pending);
                return;
            },
        };
        if p.signal == AvdtpSignal::Discover.to_u8() {
            // Parse discovered SEPs
            let payload = packet.payload.as_slice();
            let mut seps: Vec<RemoteSep> = Vec::new();
            let mut k: usize = 0;
            assert(payload@.subrange(0, payload@.len() as int) =~= payload@);
            assert(seps@.map_values(|r: RemoteSep| r@) + discovered(payload@) =~= discovered(payload@));
            while payload.len() - k >= 2
                invariant
                    k <= payload@.len(),
                    seps@.map_values(|r: RemoteSep| r@) + discovered(payload@.subrange(k as int, payload@.len() as int))
                        == discovered(payload@),
                decreases payload@.len() - k,
            {
                let b0 = payload[k];
                let b1 = payload[k + 1];
                let media_type = if (b1 >> 4) == 0 {
                    MediaType::Audio
                } else if (b1 >> 4) == 1 {
                    MediaType::Video
                } else {
                    MediaType::Multimedia
                };
                let sep_type = if (b1 & 0x08) != 0 { SepType::Sink } else { SepType::Source };
                let ghost before = seps@.map_values(|r: RemoteSep| r@);
                let ghost rest = payload@.subrange(k as int, payload@.len() as int);
                seps.push(RemoteSep { seid: b0 >> 2, in_use: (b0 & 0x02) != 0, media_type, sep_type, capabilities: None });
                assert(seps@.map_values(|r: RemoteSep| r@) =~= before.push(remote_of(b0, b1)));
                assert(rest.subrange(2, rest.len() as int) =~= payload@.subrange(k + 2, payload@.len() as int));
                assert(before + discovered(rest) == before + (seq![remote_of(rest[0], rest[1])] + discovered(rest.subrange(2, rest.len() as int))));
                assert(before.push(remote_of(b0, b1)) + discovered(payload@.subrange(k + 2, payload@.len() as int))
                    =~= before + (seq![remote_of(b0, b1)] + discovered(payload@.subrange(k + 2, payload@.len() as int))));
                k = k + 2;
            }
            assert(seps@.map_values(|r: RemoteSep| r@) + Seq::<RemoteSepView>::empty() =~= seps@.map_values(|r: RemoteSep| r@));
            self.remote_seps = seps;
        } else if p.signal == AvdtpSignal::GetCapabilities.to_u8() {
            if let Some(seid) = p.seid {
                let caps = SepCapabilities::from_bytes(packet.payload.as_slice());
                if let Some(i) = self.find_remote_index(seid) {
                    let ghost before = self@.remote_seps;
                    self.remote_seps[i].capabilities = Some(caps);
                    assert(self@.remote_seps =~= before.update(i as int, RemoteSepView {
                        capabilities: Some(caps_parse(packet.payload@, default_caps())),
                        ..before[i as int]
                    }));
                }
            }
        } else if p.signal == AvdtpSignal::SetConfiguration.to_u8() {
            self.set_state_of(p.seid, SepState::Configured);
        } else if p.signal == AvdtpSignal::Open.to_u8() {
            self.set_state_of(p.seid, SepState::Open);
        } else if p.signal == AvdtpSignal::Start.to_u8() {
            self.set_state_of(p.seid, SepState::Streaming);
        } else if p.signal == AvdtpSignal::Suspend.to_u8() {
            self.set_state_of(p.seid, SepState::Open);
        } else if p.signal == AvdtpSignal::Close.to_u8() {
            if let Some(seid) = p.seid {
                if let Some(i) = self.find_local_index(seid) {
                    let ghost before = self@.local_seps;
                    self.local_seps[i].set_in_use(false);
                    self.local_seps[i].set_state(SepState::Idle);
                    assert(self@.local_seps =~= before.update(i as int, StreamEndpointView {
                        in_use: false,
                        state: SepState::Idle,
                        ..before[i as int]
                    }));
                }
            }
        }
    }

    fn handle_response_reject(&mut self, packet: &AvdtpPacket)
        requires
            old(self).wf(),
        ensures
            final(self).wf(),
            final(self)@ == (AvdtpSessionView { pending: old(self)@.pending.remove(packet.transaction), ..old(self)@ }),
    {
        let _ = self.take_pending(packet.transaction);
    }

    fn handle_general_reject(&mut self, packet: &AvdtpPacket)
        requires
            old(self).wf(),
        ensures
            final(self).wf(),
            final(self)@ == old(self)@,
    {
    }
}

// -----------------------------------------------------------------------------
// Laws
// -----------------------------------------------------------------------------

/// A command sent and then answered with its label is forgotten: the
/// pending table is as it was before, less that label.
pub proof fn lemma_answer_forgets_command(
    s: AvdtpSessionView,
    signal: AvdtpSignal,
    payload: Seq<u8>,
    seid: Option<u8>,
    answer: Seq<u8>,
)
    ensures
        ({
            let t = s.next_transaction & 0x0F;
            let s1 = command_spec(s, signal, payload, Some(seid)).0;
            &&& s1.pending.dom().contains(t)
            &&& response_accepted(s1, t, answer).pending == s.pending.remove(t)
        }),
{
    let t = s.next_transaction & 0x0F;
    let s1 = command_spec(s, signal, payload, Some(seid)).0;
    assert(s1.pending.remove(t) =~= s.pending.remove(t));
}

/// An idle endpoint that is configured and then opened by the peer ends
/// up open, and the open is reported.
pub proof fn lemma_configure_then_open(
    s: AvdtpSessionView,
    i: int,
    t1: u8,
    config: Seq<u8>,
    t2: u8,
)
    requires
        config.len() >= 4,
        find_local(s.local_seps, config[0] >> 2u8) == Some(i),
        !s.local_seps[i].in_use,
    ensures
        ({
            let seid = config[0] >> 2u8;
            let s1 = command_handled(s, t1, AvdtpSignal::SetConfiguration.code(), config).0;
            let r2 = command_handled(s1, t2, AvdtpSignal::Open.code(), seq![config[0]]);
            &&& s1.local_seps[i].state == SepState::Configured
            &&& s1.local_seps[i].in_use
            &&& r2.0.local_seps[i].state == SepState::Open
            &&& r2.1 == seq![(seid, SepState::Open)]
        }),
{
    let seid = config[0] >> 2u8;
    lemma_find_local_range(s.local_seps, seid, 0);
    let s1 = command_handled(s, t1, AvdtpSignal::SetConfiguration.code(), config).0;
    assert(s1.local_seps.len() == s.local_seps.len());
    lemma_find_local_same_seids(s.local_seps, s1.local_seps, seid, 0);
    assert(seq![config[0]][0] == config[0]);
}

/// Where a search for an endpoint lands.
proof fn lemma_find_local_range(seps: Seq<StreamEndpointView>, seid: u8, k: int)
    requires
        0 <= k,
    ensures
        match find_local_from(seps, seid, k) {
            Some(i) => k <= i < seps.len() && seps[i].seid == seid,
            None => true,
        },
    decreases seps.len() - k,
{
    if k < seps.len() {
        lemma_find_local_range(seps, seid, k + 1);
    }
}

/// Finding an endpoint only looks at SEIDs.
proof fn lemma_find_local_same_seids(a: Seq<StreamEndpointView>, b: Seq<StreamEndpointView>, seid: u8, k: int)
    requires
        a.len() == b.len(),
        forall|j: int| 0 <= j < a.len() ==> #[trigger] a[j].seid == b[j].seid,
        0 <= k,
    ensures
        find_local_from(a, seid, k) == find_local_from(b, seid, k),
    decreases a.len() - k,
{
    if k < a.len() {
        lemma_find_local_same_seids(a, b, seid, k + 1);
    }
}

/// Suspending a stream the peer just started puts the endpoint back to open.
pub proof fn lemma_start_then_suspend(s: AvdtpSessionView, i: int, t1: u8, t2: u8, b: u8)
    requires
        find_local(s.local_seps, b >> 2u8) == Some(i),
        s.local_seps[i].state == SepState::Open,
    ensures
        ({
            let s1 = command_handled(s, t1, AvdtpSignal::Start.code(), seq![b]).0;
            let s2 = command_handled(s1, t2, AvdtpSignal::Suspend.code(), seq![b]).0;
            &&& s1.local_seps[i].state == SepState::Streaming
            &&& s2.local_seps[i].state == SepState::Open
        }),
{
    let seid = b >> 2u8;
    lemma_find_local_range(s.local_seps, seid, 0);
    assert(seq![b].drop_last() =~= Seq::<u8>::empty());
    assert(seq![b].last() == b);
    reveal_with_fuel(switch_all, 2);
    let s1 = command_handled(s, t1, AvdtpSignal::Start.code(), seq![b]).0;
    assert(s1.local_seps.len() == s.local_seps.len());
    lemma_find_local_same_seids(s.local_seps, s1.local_seps, seid, 0);
}

// -----------------------------------------------------------------------------
// A2DP endpoint
// -----------------------------------------------------------------------------


/// The SBC configuration an endpoint starts with: 44.1 kHz joint stereo,
/// 16 blocks, 8 subbands, loudness allocation, bitpool 2 to 53.
pub open spec fn default_sbc() -> SbcConfig {
    SbcConfig {
        sampling_freq: SbcSamplingFreq::Freq44100,
        channel_mode: SbcChannelMode::JointStereo,
        block_length: SbcBlockLength::Sixteen,
        subbands: SbcSubbands::Eight,
        allocation: SbcAllocation::Loudness,
        min_bitpool: 2,
        max_bitpool: 53,
    }
}

/// The local endpoint of an A2DP endpoint: an idle audio SEP advertising
/// media transport and the default SBC configuration.
pub open spec fn audio_sep(seid: u8, t: SepType) -> StreamEndpointView {
    StreamEndpointView {
        seid,
        sep_type: t,
        media_type: MediaType::Audio,
        in_use: false,
        state: SepState::Idle,
        capabilities: SepCapabilitiesView {
            media_transport: true,
            media_codec: Some(MediaCodecView { media_type: MediaType::Audio, codec_type: AudioCodec::Sbc.code(), codec_info: sbc_bytes(default_sbc()) }),
            ..default_caps()
        },
        configuration: None,
        remote_seid: 0,
        transport: None,
    }
}

/// Whether a remote endpoint can take our stream: of the other type, for
/// audio, not in use.
pub open spec fn sep_fits(s: RemoteSepView, target: SepType) -> bool {
    s.sep_type == target && s.media_type == MediaType::Audio && !s.in_use
}

/// Index of the first remote endpoint that fits, or -1.
pub open spec fn first_sep(s: Seq<RemoteSepView>, target: SepType) -> int
    decreases s.len(),
{
    if s.len() == 0 {
        -1
    } else if sep_fits(s[0], target) {
        0
    } else {
        let k = first_sep(s.drop_first(), target);
        if k < 0 { -1 } else { k + 1 }
    }
}

/// The endpoint type our stream needs on the other side.
pub open spec fn target_of(role: A2dpRole) -> SepType {
    if role == A2dpRole::Source { SepType::Sink } else { SepType::Source }
}

/// What an endpoint holds.
pub struct A2dpEndpointView {
    pub role: A2dpRole,
    pub session: Option<AvdtpSessionView>,
    pub local_sep: StreamEndpointView,
    pub state: A2dpState,
    pub sbc_config: SbcConfig,
}

/// A2DP endpoint. The audio callback is not stored: received audio is
/// handed back to the caller.
pub struct A2dpEndpoint {
    /// Role
    pub role: A2dpRole,
    session: Option<AvdtpSession>,
    local_sep: StreamEndpoint,
    state: A2dpState,
    sbc_config: SbcConfig,
}

impl View for A2dpEndpoint {
    type V = A2dpEndpointView;

    closed spec fn view(&self) -> A2dpEndpointView {
        A2dpEndpointView {
            role: self.role,
            session: match self.session {
                Some(s) => Some(s@),
                None => None,
            },
            local_sep: self.local_sep@,
            state: self.state,
            sbc_config: self.sbc_config,
        }
    }
}

/// The endpoint after starting the stream: the first fitting remote
/// endpoint is configured with our capabilities, opened and started; the
/// first command that cannot be sent ends it.
pub open spec fn start_spec(v: A2dpEndpointView) -> (A2dpEndpointView, Result<(), BluetoothError>) {
    match v.session {
        None => (v, Err(BluetoothError::NotConnected)),
        Some(sv) => {
            let j = first_sep(sv.remote_seps, target_of(v.role));
            if j < 0 {
                (v, Err(BluetoothError::NotFound))
            } else {
                let rs = sv.remote_seps[j].seid;
                let (s1, r1) = command_spec(sv, AvdtpSignal::SetConfiguration,
                    seq![rs << 2u8, v.local_sep.seid << 2u8] + caps_bytes(v.local_sep.capabilities), Some(Some(rs)));
                if r1 is Err {
                    (A2dpEndpointView { session: Some(s1), ..v }, r1)
                } else {
                    let (s2, r2) = command_spec(s1, AvdtpSignal::Open, seq![rs << 2u8], Some(Some(rs)));
                    if r2 is Err {
                        (A2dpEndpointView { session: Some(s2), ..v }, r2)
                    } else {
                        let (s3, r3) = command_spec(s2, AvdtpSignal::Start, seq![rs << 2u8], Some(Some(rs)));
                        if r3 is Err {
                            (A2dpEndpointView { session: Some(s3), ..v }, r3)
                        } else {
                            (A2dpEndpointView { session: Some(s3), state: A2dpState::Streaming, ..v }, Ok(()))
                        }
                    }
                }
            }
        },
    }
}

impl A2dpEndpoint {
    /// The endpoint's invariant: its session is well formed, and its local
    /// endpoint is the audio endpoint it was made with.
    pub closed spec fn wf(&self) -> bool {
        &&& match self.session {
            Some(s) => s.wf(),
            None => true,
        }
        &&& self@.local_sep == audio_sep(self@.local_sep.seid, self@.local_sep.sep_type)
    }

    fn make_sep(seid: u8, t: SepType) -> (r: StreamEndpoint)
        ensures
            r@ == audio_sep(seid, t),
    {
        let mut sep = StreamEndpoint::new(seid, t, MediaType::Audio);
        sep.set_sbc_capabilities(SbcConfig::default());
        sep
    }

    fn with_role(role: A2dpRole, seid: u8, t: SepType) -> (r: Self)
        ensures
            r.wf(),
            r@ == (A2dpEndpointView { role, session: None, local_sep: audio_sep(seid, t), state: A2dpState::Disconnected, sbc_config: default_sbc() }),
    {
        A2dpEndpoint { role, session: None, local_sep: Self::make_sep(seid, t), state: A2dpState::Disconnected, sbc_config: SbcConfig::default() }
    }

    /// Create new A2DP source with local endpoint `seid`
    pub fn new_source(seid: u8) -> (r: Self)
        ensures
            r.wf(),
            r@ == (A2dpEndpointView {
                role: A2dpRole::Source,
                session: None,
                local_sep: audio_sep(seid, SepType::Source),
                state: A2dpState::Disconnected,
                sbc_config: default_sbc(),
            }),
    {
        Self::with_role(A2dpRole::Source, seid, SepType::Source)
    }

    /// Create new A2DP sink with local endpoint `seid`
    pub fn new_sink(seid: u8) -> (r: Self)
        ensures
            r.wf(),
            r@ == (A2dpEndpointView {
                role: A2dpRole::Sink,
                session: None,
                local_sep: audio_sep(seid, SepType::Sink),
                state: A2dpState::Disconnected,
                sbc_config: default_sbc(),
            }),
    {
        Self::with_role(A2dpRole::Sink, seid, SepType::Sink)
    }

    /// Get state
    pub fn state(&self) -> (r: A2dpState)
        ensures
            r == self@.state,
    {
        self.state
    }

    /// Connect to remote device on connection `handle`: an L2CAP channel for
    /// AVDTP is requested, a session (as initiator) made with our endpoint,
    /// and remote endpoints discovered; the endpoint is connected once the
    /// discovery is sent
    pub fn connect(&mut self, l2cap: &mut L2capManager, handle: u16) -> (r: Result<(), BluetoothError>)
        requires
            old(self).wf(),
            manager_wf(old(l2cap)@),
        ensures
            final(self).wf(),
            manager_wf(final(l2cap)@),
            final(l2cap)@ == connected_on(old(l2cap)@, handle, L2CAP_PSM_AVDTP),
            ({
                let sv0 = AvdtpSessionView {
                    channel: L2capChannelView { state: L2capState::WaitConnectRsp, ..new_channel_view(old(l2cap)@.next_cid, handle, L2CAP_PSM_AVDTP, false) },
                    initiator: true,
                    next_transaction: 0,
                    local_seps: seq![old(self)@.local_sep],
                    remote_seps: Seq::empty(),
                    pending: Map::empty(),
                };
                let (sv1, r1) = command_spec(sv0, AvdtpSignal::Discover, Seq::empty(), Some(None));
                &&& r == r1
                &&& final(self)@ == (A2dpEndpointView {
                    session: Some(sv1),
                    state: if r1 is Ok { A2dpState::Connected } else { A2dpState::Connecting },
                    ..old(self)@
                })
            }),
    {
        self.state = A2dpState::Connecting;
        let cid = match l2cap.connect(handle, L2CAP_PSM_AVDTP) {
            Ok(c) => c,
            Err(e) => return Err(e),
        };
        let mut channel = L2capChannel::new(cid, handle, L2CAP_PSM_AVDTP, false);
        channel.set_state(L2capState::WaitConnectRsp);
        let mut session = AvdtpSession::new(channel, true);
        session.register_sep(Self::make_sep(self.local_sep.seid, self.local_sep.sep_type));
        let ghost sv0 = session@;
        assert(sv0.local_seps =~= seq![old(self)@.local_sep]);
        let r = session.discover();
        self.session = Some(session);
        match r {
            Ok(()) => {
                self.state = A2dpState::Connected;
                Ok(())
            },
            Err(e) => Err(e),
        }
    }

    /// Index of the first remote endpoint that fits our stream
    fn find_target(seps: &Vec<RemoteSep>, target: SepType) -> (r: Option<usize>)
        ensures
            match r {
                Some(j) => j == first_sep(seps@.map_values(|s: RemoteSep| s@), target) && j < seps@.len(),
                None => first_sep(seps@.map_values(|s: RemoteSep| s@), target) < 0,
            },
    {
        let ghost all = seps@.map_values(|s: RemoteSep| s@);
        let mut j: usize = 0;
        assert(all.skip(0) =~= all);
        while j < seps.len()
            invariant
                j <= seps@.len(),
                all == seps@.map_values(|s: RemoteSep| s@),
                first_sep(all, target) == if first_sep(all.skip(j as int), target) < 0 { -1 } else { first_sep(all.skip(j as int), target) + j },
                forall|k: int| 0 <= k < j ==> !sep_fits(#[trigger] all[k], target),
            decreases seps@.len() - j,
        {
            assert(all.skip(j as int).drop_first() =~= all.skip(j + 1));
            assert(all.skip(j as int)[0] == all[j as int]);
            let s = &seps[j];
            if s.sep_type == target && s.media_type == MediaType::Audio && !s.in_use {
                return Some(j);
            }
            j = j + 1;
        }
        assert(all.skip(j as int).len() == 0);
        None
    }

    /// Start streaming to the first fitting remote endpoint
    pub fn start_stream(&mut self) -> (r: Result<(), BluetoothError>)
        requires
            old(self).wf(),
        ensures
            final(self).wf(),
            (final(self)@, r) == start_spec(old(self)@),
    {
        let mut session = match self.session.take() {
            Some(s) => s,
            None => return Err(BluetoothError::NotConnected),
        };
        let seps = session.remote_seps();
        let target = if self.role == A2dpRole::Source { SepType::Sink } else { SepType::Source };
        let j = match Self::find_target(&seps, target) {
            Some(j) => j,
            None => {
                self.session = Some(session);
                return Err(BluetoothError::NotFound);
            },
        };
        let remote_seid = seps[j].seid;
        let r1 = session.set_configuration(remote_seid, self.local_sep.seid, &self.local_sep.capabilities);
        if r1.is_err() {
            self.session = Some(session);
            return r1;
        }
        let r2 = session.open(remote_seid);
        if r2.is_err() {
            self.session = Some(session);
            return r2;
        }
        let r3 = session.start(remote_seid);
        if r3.is_err() {
            self.session = Some(session);
            return r3;
        }
        self.session = Some(session);
        self.state = A2dpState::Streaming;
        Ok(())
    }

    /// Stop streaming: the first remote endpoint is suspended
    pub fn stop_stream(&mut self) -> (r: Result<(), BluetoothError>)
        requires
            old(self).wf(),
        ensures
            final(self).wf(),
            match old(self)@.session {
                None => r == Err::<(), BluetoothError>(BluetoothError::NotConnected) && final(self)@ == old(self)@,
                Some(sv) => if sv.remote_seps.len() == 0 {
                    r is Ok && final(self)@ == (A2dpEndpointView { state: A2dpState::Connected, ..old(self)@ })
                } else {
                    let rs = sv.remote_seps[0].seid;
                    let (s1, r1) = command_spec(sv, AvdtpSignal::Suspend, seq![rs << 2u8], Some(Some(rs)));
                    &&& r == r1
                    &&& final(self)@ == (A2dpEndpointView {
                        session: Some(s1),
                        state: if r1 is Ok { A2dpState::Connected } else { old(self)@.state },
                        ..old(self)@
                    })
                },
            },
    {
        let mut session = match self.session.take() {
            Some(s) => s,
            None => return Err(BluetoothError::NotConnected),
        };
        let seps = session.remote_seps();
        if seps.len() > 0 {
            let rs = seps[0].seid;
            let r1 = session.suspend(rs);
            if r1.is_err() {
                self.session = Some(session);
                return r1;
            }
        }
        self.session = Some(session);
        self.state = A2dpState::Connected;
        Ok(())
    }

    /// Disconnect: the first remote endpoint is closed and the session
    /// dropped
    pub fn disconnect(&mut self) -> (r: Result<(), BluetoothError>)
        requires
            old(self).wf(),
        ensures
            final(self).wf(),
            r is Ok,
            final(self)@ == (A2dpEndpointView { session: None, state: A2dpState::Disconnected, ..old(self)@ }),
    {
        match self.session.take() {
            Some(mut session) => {
                let seps = session.remote_seps();
                if seps.len() > 0 {
                    let _ = session.close(seps[0].seid);
                }
            },
            None => {},
        }
        self.state = A2dpState::Disconnected;
        Ok(())
    }

    /// Send audio data: only a streaming source takes it
    pub fn send_audio(&self, _data: &[u8]) -> (r: Result<(), BluetoothError>)
        ensures
            r == if self@.role != A2dpRole::Source {
                Err::<(), BluetoothError>(BluetoothError::NotSupported)
            } else if self@.state != A2dpState::Streaming {
                Err(BluetoothError::NotConnected)
            } else {
                Ok(())
            },
    {
        if self.role != A2dpRole::Source {
            return Err(BluetoothError::NotSupported);
        }
        if self.state != A2dpState::Streaming {
            return Err(BluetoothError::NotConnected);
        }
        Ok(())
    }

    /// Handle received audio: a sink hands it on to be played
    pub fn receive_audio(&self, data: &[u8]) -> (r: Option<Vec<u8>>)
        ensures
            self@.role == A2dpRole::Sink ==> r is Some && r->Some_0@ == data@,
            self@.role != A2dpRole::Sink ==> r is None,
    {
        if self.role == A2dpRole::Sink {
            Some(vstd::slice::slice_to_vec(data))
        } else {
            None
        }
    }

    /// Get current SBC configuration
    pub fn sbc_config(&self) -> (r: SbcConfig)
        ensures
            r == self@.sbc_config,
    {
        self.sbc_config
    }
}

} // verus!
