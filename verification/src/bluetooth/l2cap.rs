//! L2CAP (Logical Link Control and Adaptation Protocol): basic frames,
//! signaling commands and configuration options.
use vstd::prelude::*;

pub mod manager;

use super::BluetoothError;
use vstd::slice::slice_to_vec;
use crate::wire::{le16, from_le16, push_u16_le, extend_bytes, copy_range, make_u16, lo8, hi8};

verus! {

pub const L2CAP_MIN_MTU: u16 = 48;
pub const L2CAP_DEFAULT_MTU: u16 = 672;
pub const L2CAP_MAX_MTU: u16 = 65535;
pub const L2CAP_HDR_LEN: usize = 4;
pub const L2CAP_SIG_MTU: u16 = 48;
pub const L2CAP_CID_NULL: u16 = 0x0000;
pub const L2CAP_CID_SIGNALING: u16 = 0x0001;
pub const L2CAP_CID_CONNLESS: u16 = 0x0002;
pub const L2CAP_CID_AMP_MANAGER: u16 = 0x0003;
pub const L2CAP_CID_ATT: u16 = 0x0004;
pub const L2CAP_CID_LE_SIGNALING: u16 = 0x0005;
pub const L2CAP_CID_SMP: u16 = 0x0006;
pub const L2CAP_CID_SMP_BREDR: u16 = 0x0007;
pub const L2CAP_CID_DYN_START: u16 = 0x0040;
pub const L2CAP_CID_DYN_END: u16 = 0xFFFF;
pub const L2CAP_CID_LE_DYN_START: u16 = 0x0040;
pub const L2CAP_CID_LE_DYN_END: u16 = 0x007F;
pub const L2CAP_PSM_SDP: u16 = 0x0001;
pub const L2CAP_PSM_RFCOMM: u16 = 0x0003;
pub const L2CAP_PSM_TCS: u16 = 0x0005;
pub const L2CAP_PSM_TCS_CORDLESS: u16 = 0x0007;
pub const L2CAP_PSM_BNEP: u16 = 0x000F;
pub const L2CAP_PSM_HID_CONTROL: u16 = 0x0011;
pub const L2CAP_PSM_HID_INTERRUPT: u16 = 0x0013;
pub const L2CAP_PSM_AVCTP: u16 = 0x0017;
pub const L2CAP_PSM_AVDTP: u16 = 0x0019;
pub const L2CAP_PSM_AVCTP_BROWSE: u16 = 0x001B;
pub const L2CAP_PSM_ATT: u16 = 0x001F;
pub const L2CAP_PSM_3DSP: u16 = 0x0021;
pub const L2CAP_PSM_IPSP: u16 = 0x0023;
pub const L2CAP_PSM_OTS: u16 = 0x0025;
pub const PSM_SDP: u16 = 0x0001;
pub const PSM_RFCOMM: u16 = 0x0003;
pub const PSM_HID_CONTROL: u16 = 0x0011;
pub const PSM_HID_INTERRUPT: u16 = 0x0013;
pub const PSM_AVDTP: u16 = 0x0019;
pub const PSM_AVCTP: u16 = 0x0017;

/// L2CAP signaling command codes
#[derive(Clone, Copy, Debug, PartialEq, Eq, Structural)]
pub enum L2capSigCode {
    /// Command reject
    CommandReject,
    /// Connection request
    ConnectionRequest,
    /// Connection response
    ConnectionResponse,
    /// Configuration request
    ConfigurationRequest,
    /// Configuration response
    ConfigurationResponse,
    /// Disconnection request
    DisconnectionRequest,
    /// Disconnection response
    DisconnectionResponse,
    /// Echo request
    EchoRequest,
    /// Echo response
    EchoResponse,
    /// Information request
    InformationRequest,
    /// Information response
    InformationResponse,
    /// Create channel request
    CreateChannelRequest,
    /// Create channel response
    CreateChannelResponse,
    /// Move channel request
    MoveChannelRequest,
    /// Move channel response
    MoveChannelResponse,
    /// Move channel confirmation
    MoveChannelConfirmation,
    /// Move channel confirmation response
    MoveChannelConfirmationResponse,
    /// Connection parameter update request
    ConnParamUpdateRequest,
    /// Connection parameter update response
    ConnParamUpdateResponse,
    /// LE credit based connection request
    LeCreditBasedConnRequest,
    /// LE credit based connection response
    LeCreditBasedConnResponse,
    /// Flow control credit
    FlowControlCredit,
    /// Credit based connection request
    CreditBasedConnRequest,
    /// Credit based connection response
    CreditBasedConnResponse,
    /// Credit based reconfigure request
    CreditBasedReconfigRequest,
    /// Credit based reconfigure response
    CreditBasedReconfigResponse,
}

impl L2capSigCode {
    /// The numeric code of this value on the wire.
    pub open spec fn code(self) -> u8 {
        match self {
            L2capSigCode::CommandReject => 0x1,
            L2capSigCode::ConnectionRequest => 0x2,
            L2capSigCode::ConnectionResponse => 0x3,
            L2capSigCode::ConfigurationRequest => 0x4,
            L2capSigCode::ConfigurationResponse => 0x5,
            L2capSigCode::DisconnectionRequest => 0x6,
            L2capSigCode::DisconnectionResponse => 0x7,
            L2capSigCode::EchoRequest => 0x8,
            L2capSigCode::EchoResponse => 0x9,
            L2capSigCode::InformationRequest => 0xa,
            L2capSigCode::InformationResponse => 0xb,
            L2capSigCode::CreateChannelRequest => 0xc,
            L2capSigCode::CreateChannelResponse => 0xd,
            L2capSigCode::MoveChannelRequest => 0xe,
            L2capSigCode::MoveChannelResponse => 0xf,
            L2capSigCode::MoveChannelConfirmation => 0x10,
            L2capSigCode::MoveChannelConfirmationResponse => 0x11,
            L2capSigCode::ConnParamUpdateRequest => 0x12,
            L2capSigCode::ConnParamUpdateResponse => 0x13,
            L2capSigCode::LeCreditBasedConnRequest => 0x14,
            L2capSigCode::LeCreditBasedConnResponse => 0x15,
            L2capSigCode::FlowControlCredit => 0x16,
            L2capSigCode::CreditBasedConnRequest => 0x17,
            L2capSigCode::CreditBasedConnResponse => 0x18,
            L2capSigCode::CreditBasedReconfigRequest => 0x19,
            L2capSigCode::CreditBasedReconfigResponse => 0x1a,
        }
    }

    /// The numeric code of this value on the wire.
    pub fn to_u8(&self) -> (r: u8)
        ensures
            r == self.code(),
    {
        match self {
            L2capSigCode::CommandReject => 0x1,
            L2capSigCode::ConnectionRequest => 0x2,
            L2capSigCode::ConnectionResponse => 0x3,
            L2capSigCode::ConfigurationRequest => 0x4,
            L2capSigCode::ConfigurationResponse => 0x5,
            L2capSigCode::DisconnectionRequest => 0x6,
            L2capSigCode::DisconnectionResponse => 0x7,
            L2capSigCode::EchoRequest => 0x8,
            L2capSigCode::EchoResponse => 0x9,
            L2capSigCode::InformationRequest => 0xa,
            L2capSigCode::InformationResponse => 0xb,
            L2capSigCode::CreateChannelRequest => 0xc,
            L2capSigCode::CreateChannelResponse => 0xd,
            L2capSigCode::MoveChannelRequest => 0xe,
            L2capSigCode::MoveChannelResponse => 0xf,
            L2capSigCode::MoveChannelConfirmation => 0x10,
            L2capSigCode::MoveChannelConfirmationResponse => 0x11,
            L2capSigCode::ConnParamUpdateRequest => 0x12,
            L2capSigCode::ConnParamUpdateResponse => 0x13,
            L2capSigCode::LeCreditBasedConnRequest => 0x14,
            L2capSigCode::LeCreditBasedConnResponse => 0x15,
            L2capSigCode::FlowControlCredit => 0x16,
            L2capSigCode::CreditBasedConnRequest => 0x17,
            L2capSigCode::CreditBasedConnResponse => 0x18,
            L2capSigCode::CreditBasedReconfigRequest => 0x19,
            L2capSigCode::CreditBasedReconfigResponse => 0x1a,
        }
    }

    /// The value whose code is `v`, if any.
    pub open spec fn decode(v: u8) -> Option<L2capSigCode> {
        if v == 0x1 { Some(L2capSigCode::CommandReject) } else { if v == 0x2 { Some(L2capSigCode::ConnectionRequest) } else { if v == 0x3 { Some(L2capSigCode::ConnectionResponse) } else { if v == 0x4 { Some(L2capSigCode::ConfigurationRequest) } else { if v == 0x5 { Some(L2capSigCode::ConfigurationResponse) } else { if v == 0x6 { Some(L2capSigCode::DisconnectionRequest) } else { if v == 0x7 { Some(L2capSigCode::DisconnectionResponse) } else { if v == 0x8 { Some(L2capSigCode::EchoRequest) } else { if v == 0x9 { Some(L2capSigCode::EchoResponse) } else { if v == 0xa { Some(L2capSigCode::InformationRequest) } else { if v == 0xb { Some(L2capSigCode::InformationResponse) } else { if v == 0xc { Some(L2capSigCode::CreateChannelRequest) } else { if v == 0xd { Some(L2capSigCode::CreateChannelResponse) } else { if v == 0xe { Some(L2capSigCode::MoveChannelRequest) } else { if v == 0xf { Some(L2capSigCode::MoveChannelResponse) } else { if v == 0x10 { Some(L2capSigCode::MoveChannelConfirmation) } else { if v == 0x11 { Some(L2capSigCode::MoveChannelConfirmationResponse) } else { if v == 0x12 { Some(L2capSigCode::ConnParamUpdateRequest) } else { if v == 0x13 { Some(L2capSigCode::ConnParamUpdateResponse) } else { if v == 0x14 { Some(L2capSigCode::LeCreditBasedConnRequest) } else { if v == 0x15 { Some(L2capSigCode::LeCreditBasedConnResponse) } else { if v == 0x16 { Some(L2capSigCode::FlowControlCredit) } else { if v == 0x17 { Some(L2capSigCode::CreditBasedConnRequest) } else { if v == 0x18 { Some(L2capSigCode::CreditBasedConnResponse) } else { if v == 0x19 { Some(L2capSigCode::CreditBasedReconfigRequest) } else { if v == 0x1a { Some(L2capSigCode::CreditBasedReconfigResponse) } else { None } } } } } } } } } } } } } } } } } } } } } } } } } }
    }

    /// The value whose code is `v`, if any.
    pub fn from_u8(v: u8) -> (r: Option<L2capSigCode>)
        ensures
            r == L2capSigCode::decode(v),
    {
        match v {
            0x1 => Some(L2capSigCode::CommandReject),
            0x2 => Some(L2capSigCode::ConnectionRequest),
            0x3 => Some(L2capSigCode::ConnectionResponse),
            0x4 => Some(L2capSigCode::ConfigurationRequest),
            0x5 => Some(L2capSigCode::ConfigurationResponse),
            0x6 => Some(L2capSigCode::DisconnectionRequest),
            0x7 => Some(L2capSigCode::DisconnectionResponse),
            0x8 => Some(L2capSigCode::EchoRequest),
            0x9 => Some(L2capSigCode::EchoResponse),
            0xa => Some(L2capSigCode::InformationRequest),
            0xb => Some(L2capSigCode::InformationResponse),
            0xc => Some(L2capSigCode::CreateChannelRequest),
            0xd => Some(L2capSigCode::CreateChannelResponse),
            0xe => Some(L2capSigCode::MoveChannelRequest),
            0xf => Some(L2capSigCode::MoveChannelResponse),
            0x10 => Some(L2capSigCode::MoveChannelConfirmation),
            0x11 => Some(L2capSigCode::MoveChannelConfirmationResponse),
            0x12 => Some(L2capSigCode::ConnParamUpdateRequest),
            0x13 => Some(L2capSigCode::ConnParamUpdateResponse),
            0x14 => Some(L2capSigCode::LeCreditBasedConnRequest),
            0x15 => Some(L2capSigCode::LeCreditBasedConnResponse),
            0x16 => Some(L2capSigCode::FlowControlCredit),
            0x17 => Some(L2capSigCode::CreditBasedConnRequest),
            0x18 => Some(L2capSigCode::CreditBasedConnResponse),
            0x19 => Some(L2capSigCode::CreditBasedReconfigRequest),
            0x1a => Some(L2capSigCode::CreditBasedReconfigResponse),
            _ => None,
        }
    }

    /// Decoding the code of a value gives the value back.
    pub proof fn lemma_code_roundtrip(self)
        ensures
            L2capSigCode::decode(self.code()) == Some(self),
    {
    }

}

/// Connection response result codes
#[derive(Clone, Copy, Debug, PartialEq, Eq, Structural)]
pub enum L2capConnResult {
    /// Connection successful
    Success,
    /// Connection pending
    Pending,
    /// PSM not supported
    PsmNotSupported,
    /// Security block
    SecurityBlock,
    /// No resources available
    NoResources,
    /// Invalid source CID
    InvalidSourceCid,
    /// Source CID already allocated
    SourceCidAlreadyAllocated,
}

impl L2capConnResult {
    /// The numeric code of this value on the wire.
    pub open spec fn code(self) -> u16 {
        match self {
            L2capConnResult::Success => 0x0,
            L2capConnResult::Pending => 0x1,
            L2capConnResult::PsmNotSupported => 0x2,
            L2capConnResult::SecurityBlock => 0x3,
            L2capConnResult::NoResources => 0x4,
            L2capConnResult::InvalidSourceCid => 0x6,
            L2capConnResult::SourceCidAlreadyAllocated => 0x7,
        }
    }

    /// The numeric code of this value on the wire.
    pub fn to_u16(&self) -> (r: u16)
        ensures
            r == self.code(),
    {
        match self {
            L2capConnResult::Success => 0x0,
            L2capConnResult::Pending => 0x1,
            L2capConnResult::PsmNotSupported => 0x2,
            L2capConnResult::SecurityBlock => 0x3,
            L2capConnResult::NoResources => 0x4,
            L2capConnResult::InvalidSourceCid => 0x6,
            L2capConnResult::SourceCidAlreadyAllocated => 0x7,
        }
    }

}

/// Configuration response result codes
#[derive(Clone, Copy, Debug, PartialEq, Eq, Structural)]
pub enum L2capConfResult {
    /// Success
    Success,
    /// Unacceptable parameters
    Unacceptable,
    /// Rejected
    Rejected,
    /// Unknown options
    Unknown,
    /// Pending
    Pending,
    /// Flow spec rejected
    FlowSpecRejected,
}

impl L2capConfResult {
    /// The numeric code of this value on the wire.
    pub open spec fn code(self) -> u16 {
        match self {
            L2capConfResult::Success => 0x0,
            L2capConfResult::Unacceptable => 0x1,
            L2capConfResult::Rejected => 0x2,
            L2capConfResult::Unknown => 0x3,
            L2capConfResult::Pending => 0x4,
            L2capConfResult::FlowSpecRejected => 0x5,
        }
    }

    /// The numeric code of this value on the wire.
    pub fn to_u16(&self) -> (r: u16)
        ensures
            r == self.code(),
    {
        match self {
            L2capConfResult::Success => 0x0,
            L2capConfResult::Unacceptable => 0x1,
            L2capConfResult::Rejected => 0x2,
            L2capConfResult::Unknown => 0x3,
            L2capConfResult::Pending => 0x4,
            L2capConfResult::FlowSpecRejected => 0x5,
        }
    }

}

/// Information request types
#[derive(Clone, Copy, Debug, PartialEq, Eq, Structural)]
pub enum L2capInfoType {
    /// Connectionless MTU
    ConnectionlessMtu,
    /// Extended features mask
    ExtendedFeatures,
    /// Fixed channels supported
    FixedChannels,
}

impl L2capInfoType {
    /// The numeric code of this value on the wire.
    pub open spec fn code(self) -> u16 {
        match self {
            L2capInfoType::ConnectionlessMtu => 0x1,
            L2capInfoType::ExtendedFeatures => 0x2,
            L2capInfoType::FixedChannels => 0x3,
        }
    }

    /// The numeric code of this value on the wire.
    pub fn to_u16(&self) -> (r: u16)
        ensures
            r == self.code(),
    {
        match self {
            L2capInfoType::ConnectionlessMtu => 0x1,
            L2capInfoType::ExtendedFeatures => 0x2,
            L2capInfoType::FixedChannels => 0x3,
        }
    }

}

/// Configuration option types
#[derive(Clone, Copy, Debug, PartialEq, Eq, Structural)]
pub enum L2capConfOptType {
    /// MTU option
    Mtu,
    /// Flush timeout option
    FlushTimeout,
    /// QoS option
    Qos,
    /// Retransmission and flow control option
    Rfc,
    /// Frame check sequence option
    Fcs,
    /// Extended flow specification option
    Efs,
    /// Extended window size option
    ExtWindow,
}

impl L2capConfOptType {
    /// The numeric code of this value on the wire.
    pub open spec fn code(self) -> u8 {
        match self {
            L2capConfOptType::Mtu => 0x1,
            L2capConfOptType::FlushTimeout => 0x2,
            L2capConfOptType::Qos => 0x3,
            L2capConfOptType::Rfc => 0x4,
            L2capConfOptType::Fcs => 0x5,
            L2capConfOptType::Efs => 0x6,
            L2capConfOptType::ExtWindow => 0x7,
        }
    }

    /// The numeric code of this value on the wire.
    pub fn to_u8(&self) -> (r: u8)
        ensures
            r == self.code(),
    {
        match self {
            L2capConfOptType::Mtu => 0x1,
            L2capConfOptType::FlushTimeout => 0x2,
            L2capConfOptType::Qos => 0x3,
            L2capConfOptType::Rfc => 0x4,
            L2capConfOptType::Fcs => 0x5,
            L2capConfOptType::Efs => 0x6,
            L2capConfOptType::ExtWindow => 0x7,
        }
    }

    /// The value whose code is `v`, if any.
    pub open spec fn decode(v: u8) -> Option<L2capConfOptType> {
        if v == 0x1 { Some(L2capConfOptType::Mtu) } else { if v == 0x2 { Some(L2capConfOptType::FlushTimeout) } else { if v == 0x3 { Some(L2capConfOptType::Qos) } else { if v == 0x4 { Some(L2capConfOptType::Rfc) } else { if v == 0x5 { Some(L2capConfOptType::Fcs) } else { if v == 0x6 { Some(L2capConfOptType::Efs) } else { if v == 0x7 { Some(L2capConfOptType::ExtWindow) } else { None } } } } } } }
    }

    /// The value whose code is `v`, if any.
    pub fn from_u8(v: u8) -> (r: Option<L2capConfOptType>)
        ensures
            r == L2capConfOptType::decode(v),
    {
        match v {
            0x1 => Some(L2capConfOptType::Mtu),
            0x2 => Some(L2capConfOptType::FlushTimeout),
            0x3 => Some(L2capConfOptType::Qos),
            0x4 => Some(L2capConfOptType::Rfc),
            0x5 => Some(L2capConfOptType::Fcs),
            0x6 => Some(L2capConfOptType::Efs),
            0x7 => Some(L2capConfOptType::ExtWindow),
            _ => None,
        }
    }

    /// Decoding the code of a value gives the value back.
    pub proof fn lemma_code_roundtrip(self)
        ensures
            L2capConfOptType::decode(self.code()) == Some(self),
    {
    }

}

/// Basic L2CAP header
#[derive(Clone, Copy, Debug, PartialEq, Eq, Structural)]
pub struct L2capHeader {
    /// Payload length
    pub length: u16,
    /// Channel ID
    pub cid: u16,
}

/// The wire form of a basic L2CAP header.
pub open spec fn header_bytes(length: u16, cid: u16) -> Seq<u8> {
    le16(length) + le16(cid)
}

impl L2capHeader {
    /// Parse the four header bytes
    pub fn from_bytes(data: &[u8]) -> (r: Option<Self>)
        ensures
            r.is_some() <==> data@.len() >= 4,
            r matches Some(h) ==> h.length == from_le16(data@[0], data@[1]) && h.cid == from_le16(data@[2], data@[3]),
    {
        if data.len() < 4 {
            return None;
        }
        Some(L2capHeader { length: make_u16(data[0], data[1]), cid: make_u16(data[2], data[3]) })
    }

    /// Serialize to the four header bytes
    pub fn to_bytes(&self) -> (r: [u8; 4])
        ensures
            r@ == header_bytes(self.length, self.cid),
    {
        let r = [lo8(self.length), hi8(self.length), lo8(self.cid), hi8(self.cid)];
        assert(r@ =~= header_bytes(self.length, self.cid));
        r
    }
}

/// L2CAP basic frame
#[derive(Clone, Debug)]
pub struct L2capPacket {
    pub header: L2capHeader,
    pub payload: Vec<u8>,
}

/// Whether `data` holds a whole basic frame (header plus the payload length it announces).
pub open spec fn frame_fits(data: Seq<u8>) -> bool {
    data.len() >= 4 && data.len() >= 4 + from_le16(data[0], data[1])
}

impl L2capPacket {
    /// Frame a payload for a channel
    pub fn new(cid: u16, payload: Vec<u8>) -> (r: Self)
        ensures
            r.header.cid == cid,
            r.header.length == (payload@.len() % 65536) as u16,
            r.payload@ == payload@,
    {
        let n = payload.len();
        L2capPacket { header: L2capHeader { length: (n % 65536) as u16, cid }, payload }
    }

    /// Parse a frame from ACL payload bytes
    pub fn from_acl_data(data: &[u8]) -> (r: Option<Self>)
        ensures
            r.is_some() <==> frame_fits(data@),
            r matches Some(p) ==> p.header.length == from_le16(data@[0], data@[1])
                && p.header.cid == from_le16(data@[2], data@[3])
                && p.payload@ == data@.subrange(4, 4 + p.header.length as int),
    {
        let header = match L2capHeader::from_bytes(data) {
            Some(h) => h,
            None => return None,
        };
        let len = header.length as usize;
        if data.len() < 4 + len {
            return None;
        }
        Some(L2capPacket { header, payload: copy_range(data, 4, 4 + len) })
    }

    /// Serialize: header then payload
    pub fn to_bytes(&self) -> (r: Vec<u8>)
        ensures
            r@ == header_bytes(self.header.length, self.header.cid) + self.payload@,
    {
        let mut bytes: Vec<u8> = Vec::new();
        let h = self.header.to_bytes();
        bytes.push(h[0]);
        bytes.push(h[1]);
        bytes.push(h[2]);
        bytes.push(h[3]);
        extend_bytes(&mut bytes, self.payload.as_slice());
        assert(bytes@ =~= header_bytes(self.header.length, self.header.cid) + self.payload@);
        bytes
    }
}

/// A frame whose header length matches its payload parses back from its bytes.
pub proof fn lemma_frame_roundtrip(cid: u16, payload: Seq<u8>)
    requires
        payload.len() < 65536,
    ensures
        frame_fits(header_bytes(payload.len() as u16, cid) + payload),
        from_le16((header_bytes(payload.len() as u16, cid) + payload)[0],
            (header_bytes(payload.len() as u16, cid) + payload)[1]) == payload.len(),
        from_le16((header_bytes(payload.len() as u16, cid) + payload)[2],
            (header_bytes(payload.len() as u16, cid) + payload)[3]) == cid,
        (header_bytes(payload.len() as u16, cid) + payload).subrange(4, 4 + payload.len() as int) == payload,
{
    let b = header_bytes(payload.len() as u16, cid) + payload;
    crate::wire::lemma_le16_roundtrip(payload.len() as u16);
    crate::wire::lemma_le16_roundtrip(cid);
    assert(b[0] == le16(payload.len() as u16)[0] && b[1] == le16(payload.len() as u16)[1]);
    assert(b[2] == le16(cid)[0] && b[3] == le16(cid)[1]);
    assert(b.subrange(4, 4 + payload.len() as int) =~= payload);
}

/// L2CAP signaling command
#[derive(Clone, Debug)]
pub struct L2capSignal {
    pub code: u8,
    pub id: u8,
    pub data: Vec<u8>,
}

/// The wire form of a signaling command: code, identifier, length (LE), data.
pub open spec fn signal_bytes(code: u8, id: u8, data: Seq<u8>) -> Seq<u8> {
    seq![code, id] + le16((data.len() % 65536) as u16) + data
}

/// Whether `data` holds a whole signaling command.
pub open spec fn signal_fits(data: Seq<u8>) -> bool {
    data.len() >= 4 && data.len() >= 4 + from_le16(data[2], data[3])
}

impl L2capSignal {
    /// Create a signaling command
    pub fn new(code: L2capSigCode, id: u8, data: Vec<u8>) -> (r: Self)
        ensures
            r.code == code.code(),
            r.id == id,
            r.data@ == data@,
    {
        L2capSignal { code: code.to_u8(), id, data }
    }

    /// Parse a signaling command
    pub fn from_bytes(data: &[u8]) -> (r: Option<Self>)
        ensures
            r.is_some() <==> signal_fits(data@),
            r matches Some(s) ==> s.code == data@[0] && s.id == data@[1]
                && s.data@ == data@.subrange(4, 4 + from_le16(data@[2], data@[3]) as int),
    {
        if data.len() < 4 {
            return None;
        }
        let code = data[0];
        let id = data[1];
        let length = make_u16(data[2], data[3]) as usize;
        if data.len() < 4 + length {
            return None;
        }
        Some(L2capSignal { code, id, data: copy_range(data, 4, 4 + length) })
    }

    /// Serialize a signaling command
    pub fn to_bytes(&self) -> (r: Vec<u8>)
        ensures
            r@ == signal_bytes(self.code, self.id, self.data@),
    {
        let mut bytes: Vec<u8> = Vec::new();
        bytes.push(self.code);
        bytes.push(self.id);
        let n = self.data.len();
        push_u16_le(&mut bytes, (n % 65536) as u16);
        extend_bytes(&mut bytes, self.data.as_slice());
        assert(bytes@ =~= signal_bytes(self.code, self.id, self.data@));
        bytes
    }

    /// Connection request: PSM, source CID
    pub fn connection_request(id: u8, psm: u16, source_cid: u16) -> (r: Self)
        ensures
            r.code == L2capSigCode::ConnectionRequest.code(),
            r.id == id,
            r.data@ == le16(psm) + le16(source_cid),
    {
        let mut data: Vec<u8> = Vec::new();
        push_u16_le(&mut data, psm);
        push_u16_le(&mut data, source_cid);
        assert(data@ =~= le16(psm) + le16(source_cid));
        Self::new(L2capSigCode::ConnectionRequest, id, data)
    }

    /// Connection response: destination CID, source CID, result, status
    pub fn connection_response(id: u8, dest_cid: u16, source_cid: u16, result: L2capConnResult, status: u16) -> (r: Self)
        ensures
            r.code == L2capSigCode::ConnectionResponse.code(),
            r.id == id,
            r.data@ == le16(dest_cid) + le16(source_cid) + le16(result.code()) + le16(status),
    {
        let mut data: Vec<u8> = Vec::new();
        push_u16_le(&mut data, dest_cid);
        push_u16_le(&mut data, source_cid);
        push_u16_le(&mut data, result.to_u16());
        push_u16_le(&mut data, status);
        assert(data@ =~= le16(dest_cid) + le16(source_cid) + le16(result.code()) + le16(status));
        Self::new(L2capSigCode::ConnectionResponse, id, data)
    }

    /// Configuration request: destination CID, flags, options
    pub fn configuration_request(id: u8, dest_cid: u16, flags: u16, options: &[u8]) -> (r: Self)
        ensures
            r.code == L2capSigCode::ConfigurationRequest.code(),
            r.id == id,
            r.data@ == le16(dest_cid) + le16(flags) + options@,
    {
        let mut data: Vec<u8> = Vec::new();
        push_u16_le(&mut data, dest_cid);
        push_u16_le(&mut data, flags);
        extend_bytes(&mut data, options);
        assert(data@ =~= le16(dest_cid) + le16(flags) + options@);
        Self::new(L2capSigCode::ConfigurationRequest, id, data)
    }

    /// Configuration response: source CID, flags, result, options
    pub fn configuration_response(id: u8, source_cid: u16, flags: u16, result: L2capConfResult, options: &[u8]) -> (r: Self)
        ensures
            r.code == L2capSigCode::ConfigurationResponse.code(),
            r.id == id,
            r.data@ == le16(source_cid) + le16(flags) + le16(result.code()) + options@,
    {
        let mut data: Vec<u8> = Vec::new();
        push_u16_le(&mut data, source_cid);
        push_u16_le(&mut data, flags);
        push_u16_le(&mut data, result.to_u16());
        extend_bytes(&mut data, options);
        assert(data@ =~= le16(source_cid) + le16(flags) + le16(result.code()) + options@);
        Self::new(L2capSigCode::ConfigurationResponse, id, data)
    }

    /// Disconnection request: destination CID, source CID
    pub fn disconnection_request(id: u8, dest_cid: u16, source_cid: u16) -> (r: Self)
        ensures
            r.code == L2capSigCode::DisconnectionRequest.code(),
            r.id == id,
            r.data@ == le16(dest_cid) + le16(source_cid),
    {
        let mut data: Vec<u8> = Vec::new();
        push_u16_le(&mut data, dest_cid);
        push_u16_le(&mut data, source_cid);
        assert(data@ =~= le16(dest_cid) + le16(source_cid));
        Self::new(L2capSigCode::DisconnectionRequest, id, data)
    }

    /// Disconnection response: destination CID, source CID
    pub fn disconnection_response(id: u8, dest_cid: u16, source_cid: u16) -> (r: Self)
        ensures
            r.code == L2capSigCode::DisconnectionResponse.code(),
            r.id == id,
            r.data@ == le16(dest_cid) + le16(source_cid),
    {
        let mut data: Vec<u8> = Vec::new();
        push_u16_le(&mut data, dest_cid);
        push_u16_le(&mut data, source_cid);
        assert(data@ =~= le16(dest_cid) + le16(source_cid));
        Self::new(L2capSigCode::DisconnectionResponse, id, data)
    }

    /// Information request for one information type
    pub fn information_request(id: u8, info_type: L2capInfoType) -> (r: Self)
        ensures
            r.code == L2capSigCode::InformationRequest.code(),
            r.id == id,
            r.data@ == le16(info_type.code()),
    {
        let mut data: Vec<u8> = Vec::new();
        push_u16_le(&mut data, info_type.to_u16());
        Self::new(L2capSigCode::InformationRequest, id, data)
    }

    /// Command reject: reason, then the reason's data
    pub fn command_reject(id: u8, reason: u16, data: Vec<u8>) -> (r: Self)
        ensures
            r.code == L2capSigCode::CommandReject.code(),
            r.id == id,
            r.data@ == le16(reason) + data@,
    {
        let mut payload: Vec<u8> = Vec::new();
        push_u16_le(&mut payload, reason);
        extend_bytes(&mut payload, data.as_slice());
        Self::new(L2capSigCode::CommandReject, id, payload)
    }

    /// LE connection parameter update request
    pub fn le_conn_param_update_request(id: u8, min_interval: u16, max_interval: u16, latency: u16, timeout: u16) -> (r: Self)
        ensures
            r.code == L2capSigCode::ConnParamUpdateRequest.code(),
            r.id == id,
            r.data@ == le16(min_interval) + le16(max_interval) + le16(latency) + le16(timeout),
    {
        let mut data: Vec<u8> = Vec::new();
        push_u16_le(&mut data, min_interval);
        push_u16_le(&mut data, max_interval);
        push_u16_le(&mut data, latency);
        push_u16_le(&mut data, timeout);
        assert(data@ =~= le16(min_interval) + le16(max_interval) + le16(latency) + le16(timeout));
        Self::new(L2capSigCode::ConnParamUpdateRequest, id, data)
    }

    /// LE credit based connection request
    pub fn le_credit_conn_request(id: u8, psm: u16, source_cid: u16, mtu: u16, mps: u16, initial_credits: u16) -> (r: Self)
        ensures
            r.code == L2capSigCode::LeCreditBasedConnRequest.code(),
            r.id == id,
            r.data@ == le16(psm) + le16(source_cid) + le16(mtu) + le16(mps) + le16(initial_credits),
    {
        let mut data: Vec<u8> = Vec::new();
        push_u16_le(&mut data, psm);
        push_u16_le(&mut data, source_cid);
        push_u16_le(&mut data, mtu);
        push_u16_le(&mut data, mps);
        push_u16_le(&mut data, initial_credits);
        assert(data@ =~= le16(psm) + le16(source_cid) + le16(mtu) + le16(mps) + le16(initial_credits));
        Self::new(L2capSigCode::LeCreditBasedConnRequest, id, data)
    }
}

/// A signaling command with data shorter than 64 KiB parses back from its bytes.
pub proof fn lemma_signal_roundtrip(code: u8, id: u8, data: Seq<u8>)
    requires
        data.len() < 65536,
    ensures
        signal_fits(signal_bytes(code, id, data)),
        signal_bytes(code, id, data)[0] == code,
        signal_bytes(code, id, data)[1] == id,
        from_le16(signal_bytes(code, id, data)[2], signal_bytes(code, id, data)[3]) == data.len(),
        signal_bytes(code, id, data).subrange(4, 4 + data.len() as int) == data,
{
    let b = signal_bytes(code, id, data);
    crate::wire::lemma_le16_roundtrip(data.len() as u16);
    assert(b[2] == le16(data.len() as u16)[0] && b[3] == le16(data.len() as u16)[1]);
    assert(b.subrange(4, 4 + data.len() as int) =~= data);
}

/// L2CAP channel mode
#[derive(Clone, Copy, Debug, PartialEq, Eq, Structural)]
pub enum L2capMode {
    Basic,
    Retransmission,
    FlowControl,
    EnhancedRetransmission,
    Streaming,
    LeCreditBased,
    EnhancedCreditBased,
}

/// L2CAP channel state
#[derive(Clone, Copy, Debug, PartialEq, Eq, Structural)]
pub enum L2capState {
    Closed,
    WaitConnect,
    WaitConnectRsp,
    Config,
    Open,
    WaitDisconnect,
}

/// Quality of service option
#[derive(Clone, Copy, Debug)]
pub struct L2capQos {
    pub service_type: u8,
    pub token_rate: u32,
    pub token_bucket_size: u32,
    pub peak_bandwidth: u32,
    pub latency: u32,
    pub delay_variation: u32,
}

/// Retransmission and flow control option
#[derive(Clone, Copy, Debug)]
pub struct L2capRfc {
    pub mode: L2capMode,
    pub tx_window: u8,
    pub max_transmit: u8,
    pub retrans_timeout: u16,
    pub monitor_timeout: u16,
    pub max_pdu_size: u16,
}

/// Extended flow specification option
#[derive(Clone, Copy, Debug)]
pub struct L2capEfs {
    pub id: u8,
    pub service_type: u8,
    pub max_sdu_size: u16,
    pub sdu_itime: u32,
    pub access_latency: u32,
    pub flush_timeout: u32,
}

/// Channel configuration
#[derive(Clone, Copy, Debug)]
pub struct L2capConfig {
    pub mtu: u16,
    pub flush_timeout: u16,
    pub qos: Option<L2capQos>,
    pub rfc: Option<L2capRfc>,
    pub fcs: u8,
    pub efs: Option<L2capEfs>,
    pub ext_window: u16,
}

impl Default for L2capConfig {
    fn default() -> (r: Self)
        ensures
            r.mtu == L2CAP_DEFAULT_MTU,
            r.flush_timeout == 0xFFFF,
            r.qos.is_none() && r.rfc.is_none() && r.efs.is_none(),
            r.fcs == 1,
            r.ext_window == 0,
    {
        L2capConfig { mtu: L2CAP_DEFAULT_MTU, flush_timeout: 0xFFFF, qos: None, rfc: None, fcs: 1, efs: None, ext_window: 0 }
    }
}

/// The configuration options (type, data) in `data`, in order; options of an
/// unknown type are skipped, and a truncated last option ends the list.
pub open spec fn config_options(data: Seq<u8>) -> Seq<(L2capConfOptType, Seq<u8>)>
    decreases data.len(),
{
    if data.len() < 2 || 2 + data[1] > data.len() {
        Seq::empty()
    } else {
        let body = data.subrange(2, 2 + data[1] as int);
        let rest = config_options(data.subrange(2 + data[1] as int, data.len() as int));
        match L2capConfOptType::decode(data[0]) {
            Some(t) => seq![(t, body)] + rest,
            None => rest,
        }
    }
}

/// The plain view of parsed options.
pub open spec fn options_view(v: Seq<(L2capConfOptType, Vec<u8>)>) -> Seq<(L2capConfOptType, Seq<u8>)> {
    v.map_values(|p: (L2capConfOptType, Vec<u8>)| (p.0, p.1@))
}

/// Parse configuration options
pub fn parse_config_options(data: &[u8]) -> (r: Vec<(L2capConfOptType, Vec<u8>)>)
    ensures
        options_view(r@) == config_options(data@),
{
    let mut options: Vec<(L2capConfOptType, Vec<u8>)> = Vec::new();
    let mut offset: usize = 0;
    assert(data@.subrange(0, data@.len() as int) =~= data@);
    assert(options_view(options@) =~= Seq::<(L2capConfOptType, Seq<u8>)>::empty());
    assert(Seq::<(L2capConfOptType, Seq<u8>)>::empty() + config_options(data@) =~= config_options(data@));
    while offset < data.len() && data.len() - offset >= 2
        invariant
            offset <= data@.len(),
            options_view(options@) + config_options(data@.subrange(offset as int, data@.len() as int))
                == config_options(data@),
        ensures
            options_view(options@) == config_options(data@),
        decreases data@.len() - offset,
    {
        let ghost rest = data@.subrange(offset as int, data@.len() as int);
        let opt_type = data[offset];
        let opt_len = data[offset + 1] as usize;
        if opt_len > data.len() - offset - 2 {
            assert(config_options(rest) == Seq::<(L2capConfOptType, Seq<u8>)>::empty());
            assert(options_view(options@) + Seq::<(L2capConfOptType, Seq<u8>)>::empty() =~= options_view(options@));
            break;
        }
        let opt_data = copy_range(data, offset + 2, offset + 2 + opt_len);
        let ghost old_options = options@;
        assert(rest.subrange(2, 2 + rest[1] as int) =~= opt_data@);
        assert(rest.subrange(2 + rest[1] as int, rest.len() as int)
            =~= data@.subrange((offset + 2 + opt_len) as int, data@.len() as int));
        match L2capConfOptType::from_u8(opt_type) {
            Some(t) => {
                options.push((t, opt_data));
                assert(options_view(options@) =~= options_view(old_options) + seq![(t, opt_data@)]);
            },
            None => {},
        }
        offset = offset + 2 + opt_len;
    }
    options
}

/// The wire form of one configuration option: type, length (mod 256), data.
pub open spec fn option_bytes(t: L2capConfOptType, data: Seq<u8>) -> Seq<u8> {
    seq![t.code(), (data.len() % 256) as u8] + data
}

/// Build a configuration option
pub fn build_config_option(opt_type: L2capConfOptType, data: &[u8]) -> (r: Vec<u8>)
    ensures
        r@ == option_bytes(opt_type, data@),
{
    let mut opt: Vec<u8> = Vec::new();
    opt.push(opt_type.to_u8());
    let n = data.len();
    opt.push((n % 256) as u8);
    extend_bytes(&mut opt, data);
    assert(opt@ =~= option_bytes(opt_type, data@));
    opt
}

/// Build the MTU option
pub fn build_mtu_option(mtu: u16) -> (r: Vec<u8>)
    ensures
        r@ == option_bytes(L2capConfOptType::Mtu, le16(mtu)),
{
    let b = [lo8(mtu), hi8(mtu)];
    assert(b@ =~= le16(mtu));
    build_config_option(L2capConfOptType::Mtu, &b)
}

/// Build the flush timeout option
pub fn build_flush_timeout_option(timeout: u16) -> (r: Vec<u8>)
    ensures
        r@ == option_bytes(L2capConfOptType::FlushTimeout, le16(timeout)),
{
    let b = [lo8(timeout), hi8(timeout)];
    assert(b@ =~= le16(timeout));
    build_config_option(L2capConfOptType::FlushTimeout, &b)
}

/// Build the FCS option
pub fn build_fcs_option(fcs: u8) -> (r: Vec<u8>)
    ensures
        r@ == option_bytes(L2capConfOptType::Fcs, seq![fcs]),
{
    let b = [fcs];
    assert(b@ =~= seq![fcs]);
    build_config_option(L2capConfOptType::Fcs, &b)
}

/// Parsing a sequence of built options (each shorter than 256 bytes) gives
/// back the options in order.
pub proof fn lemma_options_roundtrip(t: L2capConfOptType, data: Seq<u8>, rest: Seq<u8>)
    requires
        data.len() < 256,
    ensures
        config_options(option_bytes(t, data) + rest) == seq![(t, data)] + config_options(rest),
{
    let b = option_bytes(t, data) + rest;
    t.lemma_code_roundtrip();
    assert(b[1] == data.len());
    assert(b.subrange(2, 2 + data.len() as int) =~= data);
    assert(b.subrange(2 + data.len() as int, b.len() as int) =~= rest);
}

// -----------------------------------------------------------------------------
// L2CAP channel
// -----------------------------------------------------------------------------

/// The state of a channel.
pub struct L2capChannelView {
    pub local_cid: u16,
    pub remote_cid: u16,
    pub handle: u16,
    pub psm: u16,
    pub state: L2capState,
    pub mode: L2capMode,
    pub local_config: L2capConfig,
    pub remote_config: L2capConfig,
    pub pending_id: u8,
    pub tx_credits: u16,
    pub rx_credits: u16,
    /// Data queued for transmission, oldest first
    pub tx_buffer: Seq<Seq<u8>>,
    /// Data received and not yet taken, oldest first
    pub rx_buffer: Seq<Seq<u8>>,
    pub is_le: bool,
}

/// L2CAP channel
pub struct L2capChannel {
    /// Local CID
    pub local_cid: u16,
    /// Remote CID
    pub remote_cid: u16,
    /// Connection handle
    pub handle: u16,
    /// PSM
    pub psm: u16,
    /// State
    state: L2capState,
    /// Mode
    pub mode: L2capMode,
    /// Local configuration
    pub local_config: L2capConfig,
    /// Remote configuration
    pub remote_config: L2capConfig,
    /// Pending identifier
    pending_id: u8,
    /// TX credits (for credit-based modes)
    tx_credits: u16,
    /// RX credits (for credit-based modes)
    rx_credits: u16,
    /// TX buffer
    tx_buffer: Vec<Vec<u8>>,
    /// RX buffer
    rx_buffer: Vec<Vec<u8>>,
    /// Is LE channel
    pub is_le: bool,
}

impl View for L2capChannel {
    type V = L2capChannelView;

    closed spec fn view(&self) -> L2capChannelView {
        L2capChannelView {
            local_cid: self.local_cid,
            remote_cid: self.remote_cid,
            handle: self.handle,
            psm: self.psm,
            state: self.state,
            mode: self.mode,
            local_config: self.local_config,
            remote_config: self.remote_config,
            pending_id: self.pending_id,
            tx_credits: self.tx_credits,
            rx_credits: self.rx_credits,
            tx_buffer: self.tx_buffer@.map_values(|v: Vec<u8>| v@),
            rx_buffer: self.rx_buffer@.map_values(|v: Vec<u8>| v@),
            is_le: self.is_le,
        }
    }
}

/// A fresh, closed channel.
pub open spec fn new_channel_view(local_cid: u16, handle: u16, psm: u16, is_le: bool) -> L2capChannelView {
    L2capChannelView {
        local_cid,
        remote_cid: 0,
        handle,
        psm,
        state: L2capState::Closed,
        mode: L2capMode::Basic,
        local_config: default_config(),
        remote_config: default_config(),
        pending_id: 0,
        tx_credits: 0,
        rx_credits: 0,
        tx_buffer: Seq::empty(),
        rx_buffer: Seq::empty(),
        is_le,
    }
}

/// The default channel configuration.
pub open spec fn default_config() -> L2capConfig {
    L2capConfig { mtu: L2CAP_DEFAULT_MTU, flush_timeout: 0xFFFF, qos: None, rfc: None, fcs: 1, efs: None, ext_window: 0 }
}

impl L2capChannel {
    /// Create new channel
    pub fn new(local_cid: u16, handle: u16, psm: u16, is_le: bool) -> (r: Self)
        ensures
            r@ == new_channel_view(local_cid, handle, psm, is_le),
    {
        let r = L2capChannel {
            local_cid,
            remote_cid: 0,
            handle,
            psm,
            state: L2capState::Closed,
            mode: L2capMode::Basic,
            local_config: L2capConfig::default(),
            remote_config: L2capConfig::default(),
            pending_id: 0,
            tx_credits: 0,
            rx_credits: 0,
            tx_buffer: Vec::new(),
            rx_buffer: Vec::new(),
            is_le,
        };
        assert(r@.tx_buffer =~= Seq::<Seq<u8>>::empty());
        assert(r@.rx_buffer =~= Seq::<Seq<u8>>::empty());
        r
    }

    /// Get state
    pub fn state(&self) -> (r: L2capState)
        ensures
            r == self@.state,
    {
        self.state
    }

    /// Set state
    pub fn set_state(&mut self, state: L2capState)
        ensures
            final(self)@ == (L2capChannelView { state, ..old(self)@ }),
    {
        self.state = state;
    }

    /// Is connected
    pub fn is_connected(&self) -> (r: bool)
        ensures
            r == (self@.state == L2capState::Open),
    {
        self.state == L2capState::Open
    }

    /// Set remote CID (leaves the channel as it is; the CID is set when the
    /// connection response arrives)
    pub fn set_remote_cid(&self, cid: u16) {
    }

    /// Add TX credits
    pub fn add_tx_credits(&mut self, credits: u16)
        ensures
            final(self)@ == (L2capChannelView { tx_credits: old(self)@.tx_credits.wrapping_add(credits), ..old(self)@ }),
    {
        self.tx_credits = self.tx_credits.wrapping_add(credits);
    }

    /// Consume TX credit; whether there was one
    pub fn consume_tx_credit(&mut self) -> (r: bool)
        ensures
            r == (old(self)@.tx_credits > 0),
            r ==> final(self)@ == (L2capChannelView { tx_credits: (old(self)@.tx_credits - 1) as u16, ..old(self)@ }),
            !r ==> final(self)@ == old(self)@,
    {
        if self.tx_credits == 0 {
            return false;
        }
        self.tx_credits = self.tx_credits - 1;
        true
    }

    /// Add RX credits
    pub fn add_rx_credits(&mut self, credits: u16)
        ensures
            final(self)@ == (L2capChannelView { rx_credits: old(self)@.rx_credits.wrapping_add(credits), ..old(self)@ }),
    {
        self.rx_credits = self.rx_credits.wrapping_add(credits);
    }

    /// Get MTU
    pub fn mtu(&self) -> (r: u16)
        ensures
            r == self@.local_config.mtu,
    {
        self.local_config.mtu
    }

    /// Keep received data until it is taken
    pub fn receive(&mut self, data: &[u8])
        ensures
            final(self)@ == (L2capChannelView { rx_buffer: old(self)@.rx_buffer.push(data@), ..old(self)@ }),
    {
        self.rx_buffer.push(slice_to_vec(data));
        assert(self@.rx_buffer =~= old(self)@.rx_buffer.push(data@));
    }

    /// The connection handle the channel belongs to
    pub fn connection_handle(&self) -> (r: u16)
        ensures
            r == self@.handle,
    {
        self.handle
    }

    /// Queue data for transmission
    pub fn send(&mut self, data: Vec<u8>) -> (r: Result<(), BluetoothError>)
        ensures
            old(self)@.state == L2capState::Open ==> r == Ok::<(), BluetoothError>(())
                && final(self)@ == (L2capChannelView { tx_buffer: old(self)@.tx_buffer.push(data@), ..old(self)@ }),
            old(self)@.state != L2capState::Open ==> r == Err::<(), BluetoothError>(BluetoothError::NotConnected)
                && final(self)@ == old(self)@,
    {
        if self.state != L2capState::Open {
            return Err(BluetoothError::NotConnected);
        }
        self.tx_buffer.push(data);
        assert(self@.tx_buffer =~= old(self)@.tx_buffer.push(data@));
        Ok(())
    }

    /// Take pending TX data, oldest first
    pub fn pending_tx(&mut self) -> (r: Option<Vec<u8>>)
        ensures
            old(self)@.tx_buffer.len() == 0 ==> r is None && final(self)@ == old(self)@,
            old(self)@.tx_buffer.len() > 0 ==> r is Some && r->Some_0@ == old(self)@.tx_buffer[0]
                && final(self)@ == (L2capChannelView { tx_buffer: old(self)@.tx_buffer.drop_first(), ..old(self)@ }),
    {
        if self.tx_buffer.len() == 0 {
            return None;
        }
        let r = self.tx_buffer.remove(0);
        assert(self@.tx_buffer =~= old(self)@.tx_buffer.drop_first());
        Some(r)
    }

    /// Take pending RX data, oldest first
    pub fn pending_rx(&mut self) -> (r: Option<Vec<u8>>)
        ensures
            old(self)@.rx_buffer.len() == 0 ==> r is None && final(self)@ == old(self)@,
            old(self)@.rx_buffer.len() > 0 ==> r is Some && r->Some_0@ == old(self)@.rx_buffer[0]
                && final(self)@ == (L2capChannelView { rx_buffer: old(self)@.rx_buffer.drop_first(), ..old(self)@ }),
    {
        if self.rx_buffer.len() == 0 {
            return None;
        }
        let r = self.rx_buffer.remove(0);
        assert(self@.rx_buffer =~= old(self)@.rx_buffer.drop_first());
        Some(r)
    }

    /// Disconnect channel
    pub fn disconnect(&mut self) -> (r: Result<(), BluetoothError>)
        ensures
            r is Ok,
            final(self)@ == (L2capChannelView { state: L2capState::Closed, ..old(self)@ }),
    {
        self.state = L2capState::Closed;
        Ok(())
    }
}

} // verus!
