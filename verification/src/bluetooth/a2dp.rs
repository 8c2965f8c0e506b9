//! A2DP / AVDTP: signaling packet format, stream endpoint capabilities and
//! the SBC codec configuration.
use vstd::prelude::*;

mod session;
pub use session::{audio_sep, command_spec, default_sbc, start_spec, A2dpEndpoint, A2dpEndpointView, AvdtpSession, AvdtpSessionView, PendingTransaction, StreamEndpoint, StreamEndpointView, RemoteSepView};
use crate::wire::{copy_range, extend_bytes, make_u16, from_le16};

verus! {

pub const AVDTP_VERSION: u16 = 0x0103;
pub const AVDTP_DEFAULT_MTU: u16 = 672;
pub const AVDTP_MAX_SEID: u8 = 0x3E;

/// AVDTP signal identifiers
#[derive(Clone, Copy, Debug, PartialEq, Eq, Structural)]
pub enum AvdtpSignal {
    /// Discover endpoints
    Discover,
    /// Get endpoint capabilities
    GetCapabilities,
    /// Set configuration
    SetConfiguration,
    /// Get configuration
    GetConfiguration,
    /// Reconfigure
    Reconfigure,
    /// Open stream
    Open,
    /// Start streaming
    Start,
    /// Close stream
    Close,
    /// Suspend streaming
    Suspend,
    /// Abort stream
    Abort,
    /// Security control
    SecurityControl,
    /// Get all capabilities
    GetAllCapabilities,
    /// Delay report
    DelayReport,
}

impl AvdtpSignal {
    /// The numeric code of this value on the wire.
    pub open spec fn code(self) -> u8 {
        match self {
            AvdtpSignal::Discover => 0x1,
            AvdtpSignal::GetCapabilities => 0x2,
            AvdtpSignal::SetConfiguration => 0x3,
            AvdtpSignal::GetConfiguration => 0x4,
            AvdtpSignal::Reconfigure => 0x5,
            AvdtpSignal::Open => 0x6,
            AvdtpSignal::Start => 0x7,
            AvdtpSignal::Close => 0x8,
            AvdtpSignal::Suspend => 0x9,
            AvdtpSignal::Abort => 0xa,
            AvdtpSignal::SecurityControl => 0xb,
            AvdtpSignal::GetAllCapabilities => 0xc,
            AvdtpSignal::DelayReport => 0xd,
        }
    }

    /// The numeric code of this value on the wire.
    pub fn to_u8(&self) -> (r: u8)
        ensures
            r == self.code(),
    {
        match self {
            AvdtpSignal::Discover => 0x1,
            AvdtpSignal::GetCapabilities => 0x2,
            AvdtpSignal::SetConfiguration => 0x3,
            AvdtpSignal::GetConfiguration => 0x4,
            AvdtpSignal::Reconfigure => 0x5,
            AvdtpSignal::Open => 0x6,
            AvdtpSignal::Start => 0x7,
            AvdtpSignal::Close => 0x8,
            AvdtpSignal::Suspend => 0x9,
            AvdtpSignal::Abort => 0xa,
            AvdtpSignal::SecurityControl => 0xb,
            AvdtpSignal::GetAllCapabilities => 0xc,
            AvdtpSignal::DelayReport => 0xd,
        }
    }

    /// The value whose code is `v`, if any.
    pub open spec fn decode(v: u8) -> Option<AvdtpSignal> {
        if v == 0x1 { Some(AvdtpSignal::Discover) } else { if v == 0x2 { Some(AvdtpSignal::GetCapabilities) } else { if v == 0x3 { Some(AvdtpSignal::SetConfiguration) } else { if v == 0x4 { Some(AvdtpSignal::GetConfiguration) } else { if v == 0x5 { Some(AvdtpSignal::Reconfigure) } else { if v == 0x6 { Some(AvdtpSignal::Open) } else { if v == 0x7 { Some(AvdtpSignal::Start) } else { if v == 0x8 { Some(AvdtpSignal::Close) } else { if v == 0x9 { Some(AvdtpSignal::Suspend) } else { if v == 0xa { Some(AvdtpSignal::Abort) } else { if v == 0xb { Some(AvdtpSignal::SecurityControl) } else { if v == 0xc { Some(AvdtpSignal::GetAllCapabilities) } else { if v == 0xd { Some(AvdtpSignal::DelayReport) } else { None } } } } } } } } } } } } }
    }

    /// The value whose code is `v`, if any.
    pub fn from_u8(v: u8) -> (r: Option<AvdtpSignal>)
        ensures
            r == AvdtpSignal::decode(v),
    {
        match v {
            0x1 => Some(AvdtpSignal::Discover),
            0x2 => Some(AvdtpSignal::GetCapabilities),
            0x3 => Some(AvdtpSignal::SetConfiguration),
            0x4 => Some(AvdtpSignal::GetConfiguration),
            0x5 => Some(AvdtpSignal::Reconfigure),
            0x6 => Some(AvdtpSignal::Open),
            0x7 => Some(AvdtpSignal::Start),
            0x8 => Some(AvdtpSignal::Close),
            0x9 => Some(AvdtpSignal::Suspend),
            0xa => Some(AvdtpSignal::Abort),
            0xb => Some(AvdtpSignal::SecurityControl),
            0xc => Some(AvdtpSignal::GetAllCapabilities),
            0xd => Some(AvdtpSignal::DelayReport),
            _ => None,
        }
    }

    /// Decoding the code of a value gives the value back.
    pub proof fn lemma_code_roundtrip(self)
        ensures
            AvdtpSignal::decode(self.code()) == Some(self),
    {
    }

}

/// AVDTP message types
#[derive(Clone, Copy, Debug, PartialEq, Eq, Structural)]
pub enum AvdtpMessageType {
    /// Command
    Command,
    /// General reject
    GeneralReject,
    /// Response accept
    ResponseAccept,
    /// Response reject
    ResponseReject,
}

impl AvdtpMessageType {
    /// The numeric code of this value on the wire.
    pub open spec fn code(self) -> u8 {
        match self {
            AvdtpMessageType::Command => 0x0,
            AvdtpMessageType::GeneralReject => 0x1,
            AvdtpMessageType::ResponseAccept => 0x2,
            AvdtpMessageType::ResponseReject => 0x3,
        }
    }

    /// The numeric code of this value on the wire.
    pub fn to_u8(&self) -> (r: u8)
        ensures
            r == self.code(),
    {
        match self {
            AvdtpMessageType::Command => 0x0,
            AvdtpMessageType::GeneralReject => 0x1,
            AvdtpMessageType::ResponseAccept => 0x2,
            AvdtpMessageType::ResponseReject => 0x3,
        }
    }

}

/// AVDTP packet types
#[derive(Clone, Copy, Debug, PartialEq, Eq, Structural)]
pub enum AvdtpPacketType {
    /// Single packet
    Single,
    /// Start of fragmented message
    Start,
    /// Continuation of fragmented message
    Continue,
    /// End of fragmented message
    End,
}

impl AvdtpPacketType {
    /// The numeric code of this value on the wire.
    pub open spec fn code(self) -> u8 {
        match self {
            AvdtpPacketType::Single => 0x0,
            AvdtpPacketType::Start => 0x1,
            AvdtpPacketType::Continue => 0x2,
            AvdtpPacketType::End => 0x3,
        }
    }

    /// The numeric code of this value on the wire.
    pub fn to_u8(&self) -> (r: u8)
        ensures
            r == self.code(),
    {
        match self {
            AvdtpPacketType::Single => 0x0,
            AvdtpPacketType::Start => 0x1,
            AvdtpPacketType::Continue => 0x2,
            AvdtpPacketType::End => 0x3,
        }
    }

}

/// AVDTP error codes
#[derive(Clone, Copy, Debug, PartialEq, Eq, Structural)]
pub enum AvdtpError {
    /// Bad header format
    BadHeaderFormat,
    /// Bad length
    BadLength,
    /// Bad ACP SEID
    BadAcpSeid,
    /// SEP in use
    SepInUse,
    /// SEP not in use
    SepNotInUse,
    /// Bad service category
    BadServiceCategory,
    /// Bad payload format
    BadPayloadFormat,
    /// Not supported command
    NotSupportedCommand,
    /// Invalid capabilities
    InvalidCapabilities,
    /// Bad recovery type
    BadRecoveryType,
    /// Bad media transport format
    BadMediaTransportFormat,
    /// Bad recovery format
    BadRecoveryFormat,
    /// Bad ROHC format
    BadRohcFormat,
    /// Bad CP format
    BadCpFormat,
    /// Bad multiplexing format
    BadMultiplexingFormat,
    /// Unsupported configuration
    UnsupportedConfiguration,
    /// Bad state
    BadState,
}

impl AvdtpError {
    /// The numeric code of this value on the wire.
    pub open spec fn code(self) -> u8 {
        match self {
            AvdtpError::BadHeaderFormat => 0x1,
            AvdtpError::BadLength => 0x11,
            AvdtpError::BadAcpSeid => 0x12,
            AvdtpError::SepInUse => 0x13,
            AvdtpError::SepNotInUse => 0x14,
            AvdtpError::BadServiceCategory => 0x17,
            AvdtpError::BadPayloadFormat => 0x18,
            AvdtpError::NotSupportedCommand => 0x19,
            AvdtpError::InvalidCapabilities => 0x1a,
            AvdtpError::BadRecoveryType => 0x22,
            AvdtpError::BadMediaTransportFormat => 0x23,
            AvdtpError::BadRecoveryFormat => 0x25,
            AvdtpError::BadRohcFormat => 0x26,
            AvdtpError::BadCpFormat => 0x27,
            AvdtpError::BadMultiplexingFormat => 0x28,
            AvdtpError::UnsupportedConfiguration => 0x29,
            AvdtpError::BadState => 0x31,
        }
    }

    /// The numeric code of this value on the wire.
    pub fn to_u8(&self) -> (r: u8)
        ensures
            r == self.code(),
    {
        match self {
            AvdtpError::BadHeaderFormat => 0x1,
            AvdtpError::BadLength => 0x11,
            AvdtpError::BadAcpSeid => 0x12,
            AvdtpError::SepInUse => 0x13,
            AvdtpError::SepNotInUse => 0x14,
            AvdtpError::BadServiceCategory => 0x17,
            AvdtpError::BadPayloadFormat => 0x18,
            AvdtpError::NotSupportedCommand => 0x19,
            AvdtpError::InvalidCapabilities => 0x1a,
            AvdtpError::BadRecoveryType => 0x22,
            AvdtpError::BadMediaTransportFormat => 0x23,
            AvdtpError::BadRecoveryFormat => 0x25,
            AvdtpError::BadRohcFormat => 0x26,
            AvdtpError::BadCpFormat => 0x27,
            AvdtpError::BadMultiplexingFormat => 0x28,
            AvdtpError::UnsupportedConfiguration => 0x29,
            AvdtpError::BadState => 0x31,
        }
    }

    /// The value whose code is `v`, if any.
    pub open spec fn decode(v: u8) -> Option<AvdtpError> {
        if v == 0x1 { Some(AvdtpError::BadHeaderFormat) } else { if v == 0x11 { Some(AvdtpError::BadLength) } else { if v == 0x12 { Some(AvdtpError::BadAcpSeid) } else { if v == 0x13 { Some(AvdtpError::SepInUse) } else { if v == 0x14 { Some(AvdtpError::SepNotInUse) } else { if v == 0x17 { Some(AvdtpError::BadServiceCategory) } else { if v == 0x18 { Some(AvdtpError::BadPayloadFormat) } else { if v == 0x19 { Some(AvdtpError::NotSupportedCommand) } else { if v == 0x1a { Some(AvdtpError::InvalidCapabilities) } else { if v == 0x22 { Some(AvdtpError::BadRecoveryType) } else { if v == 0x23 { Some(AvdtpError::BadMediaTransportFormat) } else { if v == 0x25 { Some(AvdtpError::BadRecoveryFormat) } else { if v == 0x26 { Some(AvdtpError::BadRohcFormat) } else { if v == 0x27 { Some(AvdtpError::BadCpFormat) } else { if v == 0x28 { Some(AvdtpError::BadMultiplexingFormat) } else { if v == 0x29 { Some(AvdtpError::UnsupportedConfiguration) } else { if v == 0x31 { Some(AvdtpError::BadState) } else { None } } } } } } } } } } } } } } } } }
    }

    /// The value whose code is `v`, if any.
    pub fn from_u8(v: u8) -> (r: Option<AvdtpError>)
        ensures
            r == AvdtpError::decode(v),
    {
        match v {
            0x1 => Some(AvdtpError::BadHeaderFormat),
            0x11 => Some(AvdtpError::BadLength),
            0x12 => Some(AvdtpError::BadAcpSeid),
            0x13 => Some(AvdtpError::SepInUse),
            0x14 => Some(AvdtpError::SepNotInUse),
            0x17 => Some(AvdtpError::BadServiceCategory),
            0x18 => Some(AvdtpError::BadPayloadFormat),
            0x19 => Some(AvdtpError::NotSupportedCommand),
            0x1a => Some(AvdtpError::InvalidCapabilities),
            0x22 => Some(AvdtpError::BadRecoveryType),
            0x23 => Some(AvdtpError::BadMediaTransportFormat),
            0x25 => Some(AvdtpError::BadRecoveryFormat),
            0x26 => Some(AvdtpError::BadRohcFormat),
            0x27 => Some(AvdtpError::BadCpFormat),
            0x28 => Some(AvdtpError::BadMultiplexingFormat),
            0x29 => Some(AvdtpError::UnsupportedConfiguration),
            0x31 => Some(AvdtpError::BadState),
            _ => None,
        }
    }

    /// Decoding the code of a value gives the value back.
    pub proof fn lemma_code_roundtrip(self)
        ensures
            AvdtpError::decode(self.code()) == Some(self),
    {
    }

}

/// Service capability categories
#[derive(Clone, Copy, Debug, PartialEq, Eq, Structural)]
pub enum ServiceCategory {
    /// Media transport
    MediaTransport,
    /// Reporting
    Reporting,
    /// Recovery
    Recovery,
    /// Content protection
    ContentProtection,
    /// Header compression
    HeaderCompression,
    /// Multiplexing
    Multiplexing,
    /// Media codec
    MediaCodec,
    /// Delay reporting
    DelayReporting,
}

impl ServiceCategory {
    /// The numeric code of this value on the wire.
    pub open spec fn code(self) -> u8 {
        match self {
            ServiceCategory::MediaTransport => 0x1,
            ServiceCategory::Reporting => 0x2,
            ServiceCategory::Recovery => 0x3,
            ServiceCategory::ContentProtection => 0x4,
            ServiceCategory::HeaderCompression => 0x5,
            ServiceCategory::Multiplexing => 0x6,
            ServiceCategory::MediaCodec => 0x7,
            ServiceCategory::DelayReporting => 0x8,
        }
    }

    /// The numeric code of this value on the wire.
    pub fn to_u8(&self) -> (r: u8)
        ensures
            r == self.code(),
    {
        match self {
            ServiceCategory::MediaTransport => 0x1,
            ServiceCategory::Reporting => 0x2,
            ServiceCategory::Recovery => 0x3,
            ServiceCategory::ContentProtection => 0x4,
            ServiceCategory::HeaderCompression => 0x5,
            ServiceCategory::Multiplexing => 0x6,
            ServiceCategory::MediaCodec => 0x7,
            ServiceCategory::DelayReporting => 0x8,
        }
    }

    /// The value whose code is `v`, if any.
    pub open spec fn decode(v: u8) -> Option<ServiceCategory> {
        if v == 0x1 { Some(ServiceCategory::MediaTransport) } else { if v == 0x2 { Some(ServiceCategory::Reporting) } else { if v == 0x3 { Some(ServiceCategory::Recovery) } else { if v == 0x4 { Some(ServiceCategory::ContentProtection) } else { if v == 0x5 { Some(ServiceCategory::HeaderCompression) } else { if v == 0x6 { Some(ServiceCategory::Multiplexing) } else { if v == 0x7 { Some(ServiceCategory::MediaCodec) } else { if v == 0x8 { Some(ServiceCategory::DelayReporting) } else { None } } } } } } } }
    }

    /// The value whose code is `v`, if any.
    pub fn from_u8(v: u8) -> (r: Option<ServiceCategory>)
        ensures
            r == ServiceCategory::decode(v),
    {
        match v {
            0x1 => Some(ServiceCategory::MediaTransport),
            0x2 => Some(ServiceCategory::Reporting),
            0x3 => Some(ServiceCategory::Recovery),
            0x4 => Some(ServiceCategory::ContentProtection),
            0x5 => Some(ServiceCategory::HeaderCompression),
            0x6 => Some(ServiceCategory::Multiplexing),
            0x7 => Some(ServiceCategory::MediaCodec),
            0x8 => Some(ServiceCategory::DelayReporting),
            _ => None,
        }
    }

    /// Decoding the code of a value gives the value back.
    pub proof fn lemma_code_roundtrip(self)
        ensures
            ServiceCategory::decode(self.code()) == Some(self),
    {
    }

}

/// Media types
#[derive(Clone, Copy, Debug, PartialEq, Eq, Structural)]
pub enum MediaType {
    /// Audio
    Audio,
    /// Video
    Video,
    /// Multimedia
    Multimedia,
}

impl MediaType {
    /// The numeric code of this value on the wire.
    pub open spec fn code(self) -> u8 {
        match self {
            MediaType::Audio => 0x0,
            MediaType::Video => 0x1,
            MediaType::Multimedia => 0x2,
        }
    }

    /// The numeric code of this value on the wire.
    pub fn to_u8(&self) -> (r: u8)
        ensures
            r == self.code(),
    {
        match self {
            MediaType::Audio => 0x0,
            MediaType::Video => 0x1,
            MediaType::Multimedia => 0x2,
        }
    }

}

/// Audio codec types
#[derive(Clone, Copy, Debug, PartialEq, Eq, Structural)]
pub enum AudioCodec {
    /// SBC (mandatory)
    Sbc,
    /// MPEG-1,2 Audio
    Mpeg12Audio,
    /// MPEG-2,4 AAC
    Mpeg24Aac,
    /// ATRAC family
    Atrac,
    /// Non-A2DP (vendor-specific)
    NonA2dp,
}

impl AudioCodec {
    /// The numeric code of this value on the wire.
    pub open spec fn code(self) -> u8 {
        match self {
            AudioCodec::Sbc => 0x0,
            AudioCodec::Mpeg12Audio => 0x1,
            AudioCodec::Mpeg24Aac => 0x2,
            AudioCodec::Atrac => 0x4,
            AudioCodec::NonA2dp => 0xff,
        }
    }

    /// The numeric code of this value on the wire.
    pub fn to_u8(&self) -> (r: u8)
        ensures
            r == self.code(),
    {
        match self {
            AudioCodec::Sbc => 0x0,
            AudioCodec::Mpeg12Audio => 0x1,
            AudioCodec::Mpeg24Aac => 0x2,
            AudioCodec::Atrac => 0x4,
            AudioCodec::NonA2dp => 0xff,
        }
    }

    /// The value whose code is `v`, if any.
    pub open spec fn decode(v: u8) -> Option<AudioCodec> {
        if v == 0x0 { Some(AudioCodec::Sbc) } else { if v == 0x1 { Some(AudioCodec::Mpeg12Audio) } else { if v == 0x2 { Some(AudioCodec::Mpeg24Aac) } else { if v == 0x4 { Some(AudioCodec::Atrac) } else { if v == 0xff { Some(AudioCodec::NonA2dp) } else { None } } } } }
    }

    /// The value whose code is `v`, if any.
    pub fn from_u8(v: u8) -> (r: Option<AudioCodec>)
        ensures
            r == AudioCodec::decode(v),
    {
        match v {
            0x0 => Some(AudioCodec::Sbc),
            0x1 => Some(AudioCodec::Mpeg12Audio),
            0x2 => Some(AudioCodec::Mpeg24Aac),
            0x4 => Some(AudioCodec::Atrac),
            0xff => Some(AudioCodec::NonA2dp),
            _ => None,
        }
    }

    /// Decoding the code of a value gives the value back.
    pub proof fn lemma_code_roundtrip(self)
        ensures
            AudioCodec::decode(self.code()) == Some(self),
    {
    }

}

/// SBC sampling frequency (one-hot bit of the capability nibble)
#[derive(Clone, Copy, Debug, PartialEq, Eq, Structural)]
pub enum SbcSamplingFreq {
    Freq16000,
    Freq32000,
    Freq44100,
    Freq48000,
}

/// SBC channel mode (one-hot bit of the capability nibble)
#[derive(Clone, Copy, Debug, PartialEq, Eq, Structural)]
pub enum SbcChannelMode {
    Mono,
    DualChannel,
    Stereo,
    JointStereo,
}

/// SBC block length (one-hot bit of the capability nibble)
#[derive(Clone, Copy, Debug, PartialEq, Eq, Structural)]
pub enum SbcBlockLength {
    Four,
    Eight,
    Twelve,
    Sixteen,
}

/// SBC subbands (one-hot bit)
#[derive(Clone, Copy, Debug, PartialEq, Eq, Structural)]
pub enum SbcSubbands {
    Four,
    Eight,
}

/// SBC allocation method (one-hot bit)
#[derive(Clone, Copy, Debug, PartialEq, Eq, Structural)]
pub enum SbcAllocation {
    Snr,
    Loudness,
}

/// Stream endpoint type
#[derive(Clone, Copy, Debug, PartialEq, Eq, Structural)]
pub enum SepType {
    /// Source (sends audio)
    Source,
    /// Sink (receives audio)
    Sink,
}

impl SepType {
    /// The numeric code of this value on the wire.
    pub open spec fn code(self) -> u8 {
        match self {
            SepType::Source => 0x0,
            SepType::Sink => 0x1,
        }
    }

    /// The numeric code of this value on the wire.
    pub fn to_u8(&self) -> (r: u8)
        ensures
            r == self.code(),
    {
        match self {
            SepType::Source => 0x0,
            SepType::Sink => 0x1,
        }
    }

}

impl SbcSamplingFreq {
    /// The one-hot code of the frequency.
    pub open spec fn code(self) -> u8 {
        match self {
            SbcSamplingFreq::Freq16000 => 0x08,
            SbcSamplingFreq::Freq32000 => 0x04,
            SbcSamplingFreq::Freq44100 => 0x02,
            SbcSamplingFreq::Freq48000 => 0x01,
        }
    }

    /// The frequency a nibble names; anything else reads as 48 kHz.
    pub open spec fn of_nibble(b: u8) -> SbcSamplingFreq {
        let n = b & 0x0F;
        if n == 0x08 { SbcSamplingFreq::Freq16000 }
        else if n == 0x04 { SbcSamplingFreq::Freq32000 }
        else if n == 0x02 { SbcSamplingFreq::Freq44100 }
        else { SbcSamplingFreq::Freq48000 }
    }

    fn from_byte(byte: u8) -> (r: Self)
        ensures
            r == Self::of_nibble(byte),
    {
        match byte & 0x0F {
            0x08 => SbcSamplingFreq::Freq16000,
            0x04 => SbcSamplingFreq::Freq32000,
            0x02 => SbcSamplingFreq::Freq44100,
            _ => SbcSamplingFreq::Freq48000,
        }
    }

    fn to_byte(&self) -> (r: u8)
        ensures
            r == self.code(),
    {
        match self {
            SbcSamplingFreq::Freq16000 => 0x08,
            SbcSamplingFreq::Freq32000 => 0x04,
            SbcSamplingFreq::Freq44100 => 0x02,
            SbcSamplingFreq::Freq48000 => 0x01,
        }
    }

    /// The frequency in hertz
    pub fn to_hz(&self) -> (r: u32)
        ensures
            r == match self {
                SbcSamplingFreq::Freq16000 => 16000u32,
                SbcSamplingFreq::Freq32000 => 32000u32,
                SbcSamplingFreq::Freq44100 => 44100u32,
                SbcSamplingFreq::Freq48000 => 48000u32,
            },
    {
        match self {
            SbcSamplingFreq::Freq16000 => 16000,
            SbcSamplingFreq::Freq32000 => 32000,
            SbcSamplingFreq::Freq44100 => 44100,
            SbcSamplingFreq::Freq48000 => 48000,
        }
    }
}

impl SbcChannelMode {
    /// The one-hot code of the mode.
    pub open spec fn code(self) -> u8 {
        match self {
            SbcChannelMode::Mono => 0x08,
            SbcChannelMode::DualChannel => 0x04,
            SbcChannelMode::Stereo => 0x02,
            SbcChannelMode::JointStereo => 0x01,
        }
    }

    /// The mode a nibble names; anything else reads as joint stereo.
    pub open spec fn of_nibble(b: u8) -> SbcChannelMode {
        let n = b & 0x0F;
        if n == 0x08 { SbcChannelMode::Mono }
        else if n == 0x04 { SbcChannelMode::DualChannel }
        else if n == 0x02 { SbcChannelMode::Stereo }
        else { SbcChannelMode::JointStereo }
    }

    fn from_byte(byte: u8) -> (r: Self)
        ensures
            r == Self::of_nibble(byte),
    {
        match byte & 0x0F {
            0x08 => SbcChannelMode::Mono,
            0x04 => SbcChannelMode::DualChannel,
            0x02 => SbcChannelMode::Stereo,
            _ => SbcChannelMode::JointStereo,
        }
    }

    fn to_byte(&self) -> (r: u8)
        ensures
            r == self.code(),
    {
        match self {
            SbcChannelMode::Mono => 0x08,
            SbcChannelMode::DualChannel => 0x04,
            SbcChannelMode::Stereo => 0x02,
            SbcChannelMode::JointStereo => 0x01,
        }
    }

    /// Number of audio channels
    pub fn channels(&self) -> (r: u8)
        ensures
            r == (if *self == SbcChannelMode::Mono { 1u8 } else { 2u8 }),
    {
        match self {
            SbcChannelMode::Mono => 1,
            _ => 2,
        }
    }
}

impl SbcBlockLength {
    /// The one-hot code of the block length.
    pub open spec fn code(self) -> u8 {
        match self {
            SbcBlockLength::Four => 0x08,
            SbcBlockLength::Eight => 0x04,
            SbcBlockLength::Twelve => 0x02,
            SbcBlockLength::Sixteen => 0x01,
        }
    }

    /// The block length a nibble names; anything else reads as sixteen.
    pub open spec fn of_nibble(b: u8) -> SbcBlockLength {
        let n = b & 0x0F;
        if n == 0x08 { SbcBlockLength::Four }
        else if n == 0x04 { SbcBlockLength::Eight }
        else if n == 0x02 { SbcBlockLength::Twelve }
        else { SbcBlockLength::Sixteen }
    }

    fn from_byte(byte: u8) -> (r: Self)
        ensures
            r == Self::of_nibble(byte),
    {
        match byte & 0x0F {
            0x08 => SbcBlockLength::Four,
            0x04 => SbcBlockLength::Eight,
            0x02 => SbcBlockLength::Twelve,
            _ => SbcBlockLength::Sixteen,
        }
    }

    fn to_byte(&self) -> (r: u8)
        ensures
            r == self.code(),
    {
        match self {
            SbcBlockLength::Four => 0x08,
            SbcBlockLength::Eight => 0x04,
            SbcBlockLength::Twelve => 0x02,
            SbcBlockLength::Sixteen => 0x01,
        }
    }

    /// Number of blocks
    pub fn blocks(&self) -> (r: u8)
        ensures
            r == match self {
                SbcBlockLength::Four => 4u8,
                SbcBlockLength::Eight => 8u8,
                SbcBlockLength::Twelve => 12u8,
                SbcBlockLength::Sixteen => 16u8,
            },
    {
        match self {
            SbcBlockLength::Four => 4,
            SbcBlockLength::Eight => 8,
            SbcBlockLength::Twelve => 12,
            SbcBlockLength::Sixteen => 16,
        }
    }
}

impl SbcSubbands {
    /// The one-hot code of the subband count.
    pub open spec fn code(self) -> u8 {
        match self {
            SbcSubbands::Four => 0x02,
            SbcSubbands::Eight => 0x01,
        }
    }

    /// Four subbands when bit 1 is set, else eight.
    pub open spec fn of_bits(b: u8) -> SbcSubbands {
        if b & 0x02 != 0 { SbcSubbands::Four } else { SbcSubbands::Eight }
    }

    fn from_byte(byte: u8) -> (r: Self)
        ensures
            r == Self::of_bits(byte),
    {
        if byte & 0x02 != 0 {
            SbcSubbands::Four
        } else {
            SbcSubbands::Eight
        }
    }

    fn to_byte(&self) -> (r: u8)
        ensures
            r == self.code(),
    {
        match self {
            SbcSubbands::Four => 0x02,
            SbcSubbands::Eight => 0x01,
        }
    }

    /// Number of subbands
    pub fn subbands(&self) -> (r: u8)
        ensures
            r == (if *self == SbcSubbands::Four { 4u8 } else { 8u8 }),
    {
        match self {
            SbcSubbands::Four => 4,
            SbcSubbands::Eight => 8,
        }
    }
}

impl SbcAllocation {
    /// The one-hot code of the allocation method.
    pub open spec fn code(self) -> u8 {
        match self {
            SbcAllocation::Snr => 0x02,
            SbcAllocation::Loudness => 0x01,
        }
    }

    /// SNR when bit 1 is set, else loudness.
    pub open spec fn of_bits(b: u8) -> SbcAllocation {
        if b & 0x02 != 0 { SbcAllocation::Snr } else { SbcAllocation::Loudness }
    }

    fn from_byte(byte: u8) -> (r: Self)
        ensures
            r == Self::of_bits(byte),
    {
        if byte & 0x02 != 0 {
            SbcAllocation::Snr
        } else {
            SbcAllocation::Loudness
        }
    }

    fn to_byte(&self) -> (r: u8)
        ensures
            r == self.code(),
    {
        match self {
            SbcAllocation::Snr => 0x02,
            SbcAllocation::Loudness => 0x01,
        }
    }
}

/// SBC codec configuration
#[derive(Clone, Copy, Debug, PartialEq, Eq, Structural)]
pub struct SbcConfig {
    pub sampling_freq: SbcSamplingFreq,
    pub channel_mode: SbcChannelMode,
    pub block_length: SbcBlockLength,
    pub subbands: SbcSubbands,
    pub allocation: SbcAllocation,
    pub min_bitpool: u8,
    pub max_bitpool: u8,
}

impl Default for SbcConfig {
    fn default() -> (r: Self)
        ensures
            r == (SbcConfig {
                sampling_freq: SbcSamplingFreq::Freq44100,
                channel_mode: SbcChannelMode::JointStereo,
                block_length: SbcBlockLength::Sixteen,
                subbands: SbcSubbands::Eight,
                allocation: SbcAllocation::Loudness,
                min_bitpool: 2,
                max_bitpool: 53,
            }),
    {
        SbcConfig {
            sampling_freq: SbcSamplingFreq::Freq44100,
            channel_mode: SbcChannelMode::JointStereo,
            block_length: SbcBlockLength::Sixteen,
            subbands: SbcSubbands::Eight,
            allocation: SbcAllocation::Loudness,
            min_bitpool: 2,
            max_bitpool: 53,
        }
    }
}

/// The four codec information bytes of an SBC configuration.
pub open spec fn sbc_bytes(c: SbcConfig) -> Seq<u8> {
    seq![
        ((c.sampling_freq.code() << 4u8) | c.channel_mode.code()) as u8,
        ((c.block_length.code() << 4u8) | (c.subbands.code() << 2u8) | c.allocation.code()) as u8,
        c.min_bitpool,
        c.max_bitpool,
    ]
}

/// The SBC configuration the codec information bytes describe.
pub open spec fn sbc_of_bytes(d: Seq<u8>) -> SbcConfig {
    SbcConfig {
        sampling_freq: SbcSamplingFreq::of_nibble(d[0] >> 4u8),
        channel_mode: SbcChannelMode::of_nibble(d[0] & 0x0F),
        block_length: SbcBlockLength::of_nibble(d[1] >> 4u8),
        subbands: SbcSubbands::of_bits((d[1] >> 2u8) & 0x03),
        allocation: SbcAllocation::of_bits(d[1] & 0x03),
        min_bitpool: d[2],
        max_bitpool: d[3],
    }
}

impl SbcConfig {
    /// Parse the codec information bytes
    pub fn from_bytes(data: &[u8]) -> (r: Option<Self>)
        ensures
            r == (if data@.len() >= 4 { Some(sbc_of_bytes(data@)) } else { None::<SbcConfig> }),
    {
        if data.len() < 4 {
            return None;
        }
        let freq_mode = data[0];
        let blocks_subbands = data[1];
        Some(SbcConfig {
            sampling_freq: SbcSamplingFreq::from_byte(freq_mode >> 4),
            channel_mode: SbcChannelMode::from_byte(freq_mode & 0x0F),
            block_length: SbcBlockLength::from_byte(blocks_subbands >> 4),
            subbands: SbcSubbands::from_byte((blocks_subbands >> 2) & 0x03),
            allocation: SbcAllocation::from_byte(blocks_subbands & 0x03),
            min_bitpool: data[2],
            max_bitpool: data[3],
        })
    }

    /// Serialize the codec information bytes
    pub fn to_bytes(&self) -> (r: Vec<u8>)
        ensures
            r@ == sbc_bytes(*self),
    {
        let mut v: Vec<u8> = Vec::new();
        v.push((self.sampling_freq.to_byte() << 4) | self.channel_mode.to_byte());
        v.push((self.block_length.to_byte() << 4) | (self.subbands.to_byte() << 2) | self.allocation.to_byte());
        v.push(self.min_bitpool);
        v.push(self.max_bitpool);
        assert(v@ =~= sbc_bytes(*self));
        v
    }
}

/// Parsing the bytes of an SBC configuration gives it back.
pub proof fn lemma_sbc_roundtrip(c: SbcConfig)
    ensures
        sbc_of_bytes(sbc_bytes(c)) == c,
{
    let f = c.sampling_freq.code();
    let m = c.channel_mode.code();
    let b = c.block_length.code();
    let s = c.subbands.code();
    let a = c.allocation.code();
    let d0 = ((f << 4u8) | m) as u8;
    let d1 = ((b << 4u8) | (s << 2u8) | a) as u8;
    assert(sbc_bytes(c)[0] == d0 && sbc_bytes(c)[1] == d1);
    assert((d0 >> 4u8) & 0x0F == f && (d0 & 0x0F) & 0x0F == m) by (bit_vector)
        requires
            d0 == ((f << 4u8) | m) as u8,
            f == 1 || f == 2 || f == 4 || f == 8,
            m == 1 || m == 2 || m == 4 || m == 8,
    ;
    assert((d1 >> 4u8) & 0x0F == b && ((((d1 >> 2u8) & 0x03) & 0x02 != 0) == (s == 2))
        && (((d1 & 0x03) & 0x02 != 0) == (a == 2))) by (bit_vector)
        requires
            d1 == ((b << 4u8) | (s << 2u8) | a) as u8,
            b == 1 || b == 2 || b == 4 || b == 8,
            s == 1 || s == 2,
            a == 1 || a == 2,
    ;
    let r = sbc_of_bytes(sbc_bytes(c));
    assert(r.sampling_freq == c.sampling_freq);
    assert(r.channel_mode == c.channel_mode);
    assert(r.block_length == c.block_length);
    assert(r.subbands == c.subbands);
    assert(r.allocation == c.allocation);
}

/// Stream endpoint state
#[derive(Clone, Copy, Debug, PartialEq, Eq, Structural)]
pub enum SepState {
    Idle,
    Configured,
    Open,
    Streaming,
    Closing,
    Aborting,
}

/// Recovery capability
#[derive(Clone, Copy, Debug, PartialEq, Eq, Structural)]
pub struct RecoveryCapability {
    pub recovery_type: u8,
    pub mrws: u8,
    pub mnmp: u8,
}

/// The recovery capability in a capability body, if it is long enough.
pub open spec fn recovery_of(d: Seq<u8>) -> Option<RecoveryCapability> {
    if d.len() >= 3 {
        Some(RecoveryCapability { recovery_type: d[0], mrws: d[1], mnmp: d[2] })
    } else {
        None
    }
}

impl RecoveryCapability {
    fn from_bytes(data: &[u8]) -> (r: Option<Self>)
        ensures
            r == recovery_of(data@),
    {
        if data.len() >= 3 {
            Some(RecoveryCapability { recovery_type: data[0], mrws: data[1], mnmp: data[2] })
        } else {
            None
        }
    }
}

/// Content protection capability
#[derive(Clone, Debug)]
pub struct ContentProtection {
    pub cp_type: u16,
    pub cp_value: Vec<u8>,
}

/// The plain value of a content protection capability.
pub struct ContentProtectionView {
    pub cp_type: u16,
    pub cp_value: Seq<u8>,
}

impl View for ContentProtection {
    type V = ContentProtectionView;

    open spec fn view(&self) -> ContentProtectionView {
        ContentProtectionView { cp_type: self.cp_type, cp_value: self.cp_value@ }
    }
}

/// The content protection in a capability body, if it is long enough.
pub open spec fn content_protection_of(d: Seq<u8>) -> Option<ContentProtectionView> {
    if d.len() >= 2 {
        Some(ContentProtectionView { cp_type: from_le16(d[0], d[1]), cp_value: d.subrange(2, d.len() as int) })
    } else {
        None
    }
}

impl ContentProtection {
    fn from_bytes(data: &[u8]) -> (r: Option<Self>)
        ensures
            opt_cp_view(r) == content_protection_of(data@),
    {
        if data.len() >= 2 {
            Some(ContentProtection { cp_type: make_u16(data[0], data[1]), cp_value: copy_range(data, 2, data.len()) })
        } else {
            None
        }
    }
}

/// Media codec capability
#[derive(Clone, Debug)]
pub struct MediaCodecCapability {
    pub media_type: MediaType,
    pub codec_type: u8,
    pub codec_info: Vec<u8>,
}

/// The plain value of a media codec capability.
pub struct MediaCodecView {
    pub media_type: MediaType,
    pub codec_type: u8,
    pub codec_info: Seq<u8>,
}

impl View for MediaCodecCapability {
    type V = MediaCodecView;

    open spec fn view(&self) -> MediaCodecView {
        MediaCodecView { media_type: self.media_type, codec_type: self.codec_type, codec_info: self.codec_info@ }
    }
}

/// The media type a nibble names; values above one read as multimedia.
pub open spec fn media_type_of(n: u8) -> MediaType {
    if n == 0 { MediaType::Audio } else if n == 1 { MediaType::Video } else { MediaType::Multimedia }
}

/// The media codec in a capability body, if it is long enough.
pub open spec fn media_codec_of(d: Seq<u8>) -> Option<MediaCodecView> {
    if d.len() >= 2 {
        Some(MediaCodecView { media_type: media_type_of(d[0] >> 4u8), codec_type: d[1], codec_info: d.subrange(2, d.len() as int) })
    } else {
        None
    }
}

/// The body bytes of a media codec capability.
pub open spec fn media_codec_bytes(m: MediaCodecView) -> Seq<u8> {
    seq![(m.media_type.code() << 4u8) as u8, m.codec_type] + m.codec_info
}

/// The view of an optional content protection capability.
pub open spec fn opt_cp_view(o: Option<ContentProtection>) -> Option<ContentProtectionView> {
    match o {
        Some(c) => Some(c@),
        None => None,
    }
}

/// The view of an optional media codec capability.
pub open spec fn opt_codec_view(o: Option<MediaCodecCapability>) -> Option<MediaCodecView> {
    match o {
        Some(c) => Some(c@),
        None => None,
    }
}

impl MediaCodecCapability {
    fn from_bytes(data: &[u8]) -> (r: Option<Self>)
        ensures
            opt_codec_view(r) == media_codec_of(data@),
    {
        if data.len() >= 2 {
            let n = data[0] >> 4;
            let media_type = if n == 0 {
                MediaType::Audio
            } else if n == 1 {
                MediaType::Video
            } else {
                MediaType::Multimedia
            };
            Some(MediaCodecCapability { media_type, codec_type: data[1], codec_info: copy_range(data, 2, data.len()) })
        } else {
            None
        }
    }

    fn to_bytes(&self) -> (r: Vec<u8>)
        ensures
            r@ == media_codec_bytes(self@),
    {
        let mut bytes: Vec<u8> = Vec::new();
        bytes.push(self.media_type.to_u8() << 4);
        bytes.push(self.codec_type);
        extend_bytes(&mut bytes, self.codec_info.as_slice());
        assert(bytes@ =~= media_codec_bytes(self@));
        bytes
    }

    /// The SBC configuration, when this is an audio SBC codec
    pub fn as_sbc(&self) -> (r: Option<SbcConfig>)
        ensures
            r == (if self.media_type == MediaType::Audio && self.codec_type == 0 && self.codec_info@.len() >= 4 {
                Some(sbc_of_bytes(self.codec_info@))
            } else {
                None::<SbcConfig>
            }),
    {
        if self.media_type == MediaType::Audio && self.codec_type == 0 {
            SbcConfig::from_bytes(self.codec_info.as_slice())
        } else {
            None
        }
    }
}

/// A media codec capability parses back from its body bytes.
pub proof fn lemma_media_codec_roundtrip(m: MediaCodecView)
    ensures
        media_codec_of(media_codec_bytes(m)) == Some(m),
{
    let b = media_codec_bytes(m);
    let t = m.media_type.code();
    assert((t << 4u8) >> 4u8 == t) by (bit_vector)
        requires
            t < 3,
    ;
    assert(b.subrange(2, b.len() as int) =~= m.codec_info);
}

/// Stream endpoint capabilities
#[derive(Clone, Debug)]
pub struct SepCapabilities {
    pub media_transport: bool,
    pub reporting: bool,
    pub recovery: Option<RecoveryCapability>,
    pub content_protection: Option<ContentProtection>,
    pub header_compression: bool,
    pub multiplexing: bool,
    pub media_codec: Option<MediaCodecCapability>,
    pub delay_reporting: bool,
}

/// The plain value of a set of stream endpoint capabilities.
pub struct SepCapabilitiesView {
    pub media_transport: bool,
    pub reporting: bool,
    pub recovery: Option<RecoveryCapability>,
    pub content_protection: Option<ContentProtectionView>,
    pub header_compression: bool,
    pub multiplexing: bool,
    pub media_codec: Option<MediaCodecView>,
    pub delay_reporting: bool,
}

impl View for SepCapabilities {
    type V = SepCapabilitiesView;

    open spec fn view(&self) -> SepCapabilitiesView {
        SepCapabilitiesView {
            media_transport: self.media_transport,
            reporting: self.reporting,
            recovery: self.recovery,
            content_protection: opt_cp_view(self.content_protection),
            header_compression: self.header_compression,
            multiplexing: self.multiplexing,
            media_codec: opt_codec_view(self.media_codec),
            delay_reporting: self.delay_reporting,
        }
    }
}

/// Capabilities of an endpoint nothing is known about: media transport only.
pub open spec fn default_caps() -> SepCapabilitiesView {
    SepCapabilitiesView {
        media_transport: true,
        reporting: false,
        recovery: None,
        content_protection: None,
        header_compression: false,
        multiplexing: false,
        media_codec: None,
        delay_reporting: false,
    }
}

/// The capabilities after one capability record of category `cat` with body `body`.
pub open spec fn caps_apply(c: SepCapabilitiesView, cat: u8, body: Seq<u8>) -> SepCapabilitiesView {
    if cat == 0x01 { SepCapabilitiesView { media_transport: true, ..c } }
    else if cat == 0x02 { SepCapabilitiesView { reporting: true, ..c } }
    else if cat == 0x03 { SepCapabilitiesView { recovery: recovery_of(body), ..c } }
    else if cat == 0x04 { SepCapabilitiesView { content_protection: content_protection_of(body), ..c } }
    else if cat == 0x05 { SepCapabilitiesView { header_compression: true, ..c } }
    else if cat == 0x06 { SepCapabilitiesView { multiplexing: true, ..c } }
    else if cat == 0x07 { SepCapabilitiesView { media_codec: media_codec_of(body), ..c } }
    else if cat == 0x08 { SepCapabilitiesView { delay_reporting: true, ..c } }
    else { c }
}

/// The body of the capability record at the front of `d` (cut short at the end of `d`).
pub open spec fn record_body(d: Seq<u8>) -> Seq<u8> {
    d.subrange(2, if 2 + d[1] <= d.len() { 2 + d[1] } else { d.len() as int })
}

/// What follows the capability record at the front of `d`.
pub open spec fn record_rest(d: Seq<u8>) -> Seq<u8> {
    if 2 + d[1] <= d.len() { d.subrange(2 + d[1], d.len() as int) } else { Seq::empty() }
}

/// The capabilities after reading every record of `d` on top of `c`.
pub open spec fn caps_parse(d: Seq<u8>, c: SepCapabilitiesView) -> SepCapabilitiesView
    decreases d.len(),
{
    if d.len() < 2 {
        c
    } else {
        caps_parse(record_rest(d), caps_apply(c, d[0], record_body(d)))
    }
}

/// The record bytes of a set of capabilities: media transport, media codec
/// and delay reporting, in that order, for those present.
pub open spec fn caps_bytes(c: SepCapabilitiesView) -> Seq<u8> {
    (if c.media_transport { seq![0x01u8, 0u8] } else { Seq::empty() })
        + (match c.media_codec {
            Some(m) => seq![0x07u8, (media_codec_bytes(m).len() % 256) as u8] + media_codec_bytes(m),
            None => Seq::empty(),
        })
        + (if c.delay_reporting { seq![0x08u8, 0u8] } else { Seq::empty() })
}

/// Reading a whole record of category `cat` whose length byte counts its
/// body goes on with what follows it.
proof fn lemma_caps_parse_record(cat: u8, body: Seq<u8>, rest: Seq<u8>, c: SepCapabilitiesView)
    requires
        body.len() < 256,
    ensures
        caps_parse(seq![cat, body.len() as u8] + body + rest, c) == caps_parse(rest, caps_apply(c, cat, body)),
{
    let d = seq![cat, body.len() as u8] + body + rest;
    assert(d[1] == body.len() as u8);
    assert(record_body(d) =~= body);
    assert(record_rest(d) =~= rest);
}

/// Capabilities written out and read back give their media codec and delay
/// reporting, with media transport and everything else at the defaults
/// (the record format holds codec data of at most 253 bytes): since
/// `to_bytes` gives `caps_bytes` and `from_bytes` gives `caps_parse` from
/// the defaults, `SepCapabilities::from_bytes(&c.to_bytes())` is exactly
/// that.
pub proof fn lemma_caps_roundtrip(c: SepCapabilitiesView)
    requires
        c.media_codec matches Some(m) ==> m.codec_info.len() <= 253,
    ensures
        caps_parse(caps_bytes(c), default_caps())
            == (SepCapabilitiesView { media_codec: c.media_codec, delay_reporting: c.delay_reporting, ..default_caps() }),
{
    let t = if c.media_transport { seq![0x01u8, 0u8] } else { Seq::<u8>::empty() };
    let mb = match c.media_codec {
        Some(m) => seq![0x07u8, (media_codec_bytes(m).len() % 256) as u8] + media_codec_bytes(m),
        None => Seq::<u8>::empty(),
    };
    let db = if c.delay_reporting { seq![0x08u8, 0u8] } else { Seq::<u8>::empty() };
    let e = Seq::<u8>::empty();
    assert(caps_bytes(c) == t + mb + db);
    let c0 = default_caps();
    // After the transport record (if any), the defaults are unchanged.
    if c.media_transport {
        lemma_caps_parse_record(0x01, e, mb + db, c0);
        assert(seq![0x01u8, 0u8] + e + (mb + db) =~= t + mb + db);
    } else {
        assert(t + mb + db =~= mb + db);
    }
    assert(caps_parse(caps_bytes(c), c0) == caps_parse(mb + db, c0));
    let c1 = SepCapabilitiesView { media_codec: c.media_codec, ..c0 };
    match c.media_codec {
        Some(m) => {
            let body = media_codec_bytes(m);
            lemma_media_codec_roundtrip(m);
            assert(body.len() % 256 == body.len());
            lemma_caps_parse_record(0x07, body, db, c0);
            assert(seq![0x07u8, body.len() as u8] + body + db =~= mb + db);
        },
        None => {
            assert(mb + db =~= db);
        },
    }
    assert(caps_parse(mb + db, c0) == caps_parse(db, c1));
    if c.delay_reporting {
        lemma_caps_parse_record(0x08, e, e, c1);
        assert(seq![0x08u8, 0u8] + e + e =~= db);
    }
}

impl Default for SepCapabilities {
    fn default() -> (r: Self)
        ensures
            r@ == default_caps(),
    {
        SepCapabilities {
            media_transport: true,
            reporting: false,
            recovery: None,
            content_protection: None,
            header_compression: false,
            multiplexing: false,
            media_codec: None,
            delay_reporting: false,
        }
    }
}

/// Read one capability record into `caps`.
fn apply_record(caps: &mut SepCapabilities, category: u8, cap_data: &[u8])
    ensures
        final(caps)@ == caps_apply(old(caps)@, category, cap_data@),
{
    if category == 0x01 {
        caps.media_transport = true;
    } else if category == 0x02 {
        caps.reporting = true;
    } else if category == 0x03 {
        caps.recovery = RecoveryCapability::from_bytes(cap_data);
    } else if category == 0x04 {
        caps.content_protection = ContentProtection::from_bytes(cap_data);
    } else if category == 0x05 {
        caps.header_compression = true;
    } else if category == 0x06 {
        caps.multiplexing = true;
    } else if category == 0x07 {
        caps.media_codec = MediaCodecCapability::from_bytes(cap_data);
    } else if category == 0x08 {
        caps.delay_reporting = true;
    }
}

impl SepCapabilities {
    /// Parse a list of capability records
    pub fn from_bytes(data: &[u8]) -> (r: Self)
        ensures
            r@ == caps_parse(data@, default_caps()),
    {
        let mut caps = SepCapabilities::default();
        let mut offset: usize = 0;
        assert(data@.subrange(0, data@.len() as int) =~= data@);
        while offset < data.len() && data.len() - offset >= 2
            invariant
                offset <= data@.len(),
                caps_parse(data@.subrange(offset as int, data@.len() as int), caps@) == caps_parse(data@, default_caps()),
            ensures
                caps@ == caps_parse(data@, default_caps()),
            decreases data@.len() - offset,
        {
            let ghost rest = data@.subrange(offset as int, data@.len() as int);
            let category = data[offset];
            let length = data[offset + 1] as usize;
            let avail = data.len() - offset - 2;
            let take = if length < avail { length } else { avail };
            let cap_data = copy_range(data, offset + 2, offset + 2 + take);
            assert(cap_data@ =~= record_body(rest));
            let ghost before = caps@;
            apply_record(&mut caps, category, cap_data.as_slice());
            assert(caps_parse(rest, before) == caps_parse(record_rest(rest), caps@));
            if length > avail {
                assert(record_rest(rest) =~= Seq::<u8>::empty());
                assert(caps_parse(Seq::<u8>::empty(), caps@) == caps@);
                return caps;
            }
            offset = offset + 2 + length;
            assert(record_rest(rest) =~= data@.subrange(offset as int, data@.len() as int));
        }
        caps
    }

    /// Serialize the media transport, media codec and delay reporting records
    pub fn to_bytes(&self) -> (r: Vec<u8>)
        ensures
            r@ == caps_bytes(self@),
    {
        let mut bytes: Vec<u8> = Vec::new();
        if self.media_transport {
            bytes.push(0x01);
            bytes.push(0);
        }
        let ghost first = bytes@;
        match &self.media_codec {
            Some(codec) => {
                bytes.push(0x07);
                let codec_bytes = codec.to_bytes();
                let n = codec_bytes.len();
                bytes.push((n % 256) as u8);
                extend_bytes(&mut bytes, codec_bytes.as_slice());
            },
            None => {},
        }
        let ghost second = bytes@;
        if self.delay_reporting {
            bytes.push(0x08);
            bytes.push(0);
        }
        assert(bytes@ =~= caps_bytes(self@));
        bytes
    }
}

/// Remote stream endpoint
#[derive(Clone, Debug)]
pub struct RemoteSep {
    pub seid: u8,
    pub in_use: bool,
    pub media_type: MediaType,
    pub sep_type: SepType,
    pub capabilities: Option<SepCapabilities>,
}

/// AVDTP signaling packet
#[derive(Clone, Debug)]
pub struct AvdtpPacket {
    /// Transaction label
    pub transaction: u8,
    /// Packet type
    pub packet_type: AvdtpPacketType,
    /// Message type
    pub message_type: AvdtpMessageType,
    /// Signal identifier
    pub signal: u8,
    /// Payload
    pub payload: Vec<u8>,
}

/// The packet type a two-bit code names.
pub open spec fn packet_type_of(c: u8) -> AvdtpPacketType {
    if c == 0 { AvdtpPacketType::Single } else if c == 1 { AvdtpPacketType::Start }
    else if c == 2 { AvdtpPacketType::Continue } else { AvdtpPacketType::End }
}

/// The message type a two-bit code names.
pub open spec fn message_type_of(c: u8) -> AvdtpMessageType {
    if c == 0 { AvdtpMessageType::Command } else if c == 1 { AvdtpMessageType::GeneralReject }
    else if c == 2 { AvdtpMessageType::ResponseAccept } else { AvdtpMessageType::ResponseReject }
}

/// The header byte: transaction label (low four bits) in bits 4..8, packet
/// type in bits 2..4, message type in bits 0..2.
pub open spec fn avdtp_header(transaction: u8, packet_type: u8, message_type: u8) -> u8 {
    ((transaction & 0x0F) << 4u8) | (packet_type << 2u8) | message_type
}

impl AvdtpPacket {
    /// A single-packet message
    pub fn new(transaction: u8, message_type: AvdtpMessageType, signal: AvdtpSignal, payload: Vec<u8>) -> (r: Self)
        ensures
            r.transaction == transaction,
            r.packet_type == AvdtpPacketType::Single,
            r.message_type == message_type,
            r.signal == signal.code(),
            r.payload@ == payload@,
    {
        AvdtpPacket { transaction, packet_type: AvdtpPacketType::Single, message_type, signal: signal.to_u8(), payload }
    }

    /// Parse a signaling packet
    pub fn from_bytes(data: &[u8]) -> (r: Option<Self>)
        ensures
            r.is_some() <==> data@.len() >= 2,
            r matches Some(p) ==> {
                &&& p.transaction == (data@[0] >> 4u8) & 0x0F
                &&& p.packet_type == packet_type_of((data@[0] >> 2u8) & 0x03)
                &&& p.message_type == message_type_of(data@[0] & 0x03)
                &&& p.signal == data@[1] & 0x3F
                &&& p.payload@ == data@.subrange(2, data@.len() as int)
            },
    {
        if data.len() < 2 {
            return None;
        }
        let b0 = data[0];
        let transaction = (b0 >> 4) & 0x0F;
        let packet_type = match (b0 >> 2) & 0x03 {
            0 => AvdtpPacketType::Single,
            1 => AvdtpPacketType::Start,
            2 => AvdtpPacketType::Continue,
            _ => AvdtpPacketType::End,
        };
        let message_type = match b0 & 0x03 {
            0 => AvdtpMessageType::Command,
            1 => AvdtpMessageType::GeneralReject,
            2 => AvdtpMessageType::ResponseAccept,
            _ => AvdtpMessageType::ResponseReject,
        };
        let signal = data[1] & 0x3F;
        let payload = if data.len() > 2 { copy_range(data, 2, data.len()) } else { Vec::new() };
        assert(data@.len() == 2 ==> payload@ =~= data@.subrange(2, data@.len() as int));
        Some(AvdtpPacket { transaction, packet_type, message_type, signal, payload })
    }

    /// Serialize a signaling packet
    pub fn to_bytes(&self) -> (r: Vec<u8>)
        ensures
            r@ == seq![avdtp_header(self.transaction, self.packet_type.code(), self.message_type.code()),
                self.signal & 0x3F] + self.payload@,
    {
        let mut bytes: Vec<u8> = Vec::new();
        let header = ((self.transaction & 0x0F) << 4) | (self.packet_type.to_u8() << 2) | self.message_type.to_u8();
        bytes.push(header);
        bytes.push(self.signal & 0x3F);
        extend_bytes(&mut bytes, self.payload.as_slice());
        assert(bytes@ =~= seq![avdtp_header(self.transaction, self.packet_type.code(), self.message_type.code()),
            self.signal & 0x3F] + self.payload@);
        bytes
    }
}

/// A packet with a four-bit transaction label and a six-bit signal parses
/// back from its serialized form.
pub proof fn lemma_avdtp_roundtrip(transaction: u8, pt: AvdtpPacketType, mt: AvdtpMessageType, signal: u8)
    requires
        transaction < 16,
        signal < 64,
    ensures
        (avdtp_header(transaction, pt.code(), mt.code()) >> 4u8) & 0x0F == transaction,
        packet_type_of((avdtp_header(transaction, pt.code(), mt.code()) >> 2u8) & 0x03) == pt,
        message_type_of(avdtp_header(transaction, pt.code(), mt.code()) & 0x03) == mt,
        (signal & 0x3F) & 0x3F == signal,
{
    let p = pt.code();
    let m = mt.code();
    let h = avdtp_header(transaction, p, m);
    assert((h >> 4u8) & 0x0F == transaction && (h >> 2u8) & 0x03 == p && h & 0x03 == m
        && (signal & 0x3F) & 0x3F == signal) by (bit_vector)
        requires
            h == ((transaction & 0x0F) << 4u8) | (p << 2u8) | m,
            transaction < 16,
            p < 4,
            m < 4,
            signal < 64,
    ;
}

/// A2DP role
#[derive(Clone, Copy, Debug, PartialEq, Eq, Structural)]
pub enum A2dpRole {
    Source,
    Sink,
}

/// A2DP connection state
#[derive(Clone, Copy, Debug, PartialEq, Eq, Structural)]
pub enum A2dpState {
    Disconnected,
    Connecting,
    Connected,
    Streaming,
}

} // verus!
