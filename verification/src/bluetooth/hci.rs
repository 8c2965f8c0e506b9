//! HCI (Host Controller Interface): command, event and ACL packet formats,
//! controller feature bitmaps, and the controller's connection bookkeeping.
use vstd::prelude::*;
use std::collections::VecDeque;

pub mod controller;

use super::{AddressType, BdAddr, BluetoothError};
use crate::wire::{bit_set, flag_byte, le16, from_le16, push_u16_le, test_bit};

verus! {

/// HCI packet type indicators
#[derive(Clone, Copy, Debug, PartialEq, Eq, Structural)]
pub enum HciPacketType {
    /// Command packet (host to controller)
    Command,
    /// ACL data packet (bidirectional)
    AclData,
    /// SCO data packet (bidirectional)
    ScoData,
    /// Event packet (controller to host)
    Event,
    /// ISO data packet (LE audio)
    IsoData,
}

impl HciPacketType {
    /// The numeric code of this value on the wire.
    pub open spec fn code(self) -> u8 {
        match self {
            HciPacketType::Command => 0x1,
            HciPacketType::AclData => 0x2,
            HciPacketType::ScoData => 0x3,
            HciPacketType::Event => 0x4,
            HciPacketType::IsoData => 0x5,
        }
    }

    /// The numeric code of this value on the wire.
    pub fn to_u8(&self) -> (r: u8)
        ensures
            r == self.code(),
    {
        match self {
            HciPacketType::Command => 0x1,
            HciPacketType::AclData => 0x2,
            HciPacketType::ScoData => 0x3,
            HciPacketType::Event => 0x4,
            HciPacketType::IsoData => 0x5,
        }
    }

    /// The value whose code is `v`, if any.
    pub open spec fn decode(v: u8) -> Option<HciPacketType> {
        if v == 0x1 { Some(HciPacketType::Command) } else { if v == 0x2 { Some(HciPacketType::AclData) } else { if v == 0x3 { Some(HciPacketType::ScoData) } else { if v == 0x4 { Some(HciPacketType::Event) } else { if v == 0x5 { Some(HciPacketType::IsoData) } else { None } } } } }
    }

    /// The value whose code is `v`, if any.
    pub fn from_u8(v: u8) -> (r: Option<HciPacketType>)
        ensures
            r == HciPacketType::decode(v),
    {
        match v {
            0x1 => Some(HciPacketType::Command),
            0x2 => Some(HciPacketType::AclData),
            0x3 => Some(HciPacketType::ScoData),
            0x4 => Some(HciPacketType::Event),
            0x5 => Some(HciPacketType::IsoData),
            _ => None,
        }
    }

    /// Decoding the code of a value gives the value back.
    pub proof fn lemma_code_roundtrip(self)
        ensures
            HciPacketType::decode(self.code()) == Some(self),
    {
    }

}

/// HCI command opcode groups (OGF)
#[derive(Clone, Copy, Debug, PartialEq, Eq, Structural)]
pub enum HciOgf {
    /// Link control commands
    LinkControl,
    /// Link policy commands
    LinkPolicy,
    /// Controller & baseband commands
    ControllerBaseband,
    /// Informational parameters
    InfoParams,
    /// Status parameters
    StatusParams,
    /// Testing commands
    Testing,
    /// LE controller commands
    LeController,
    /// Vendor specific commands
    VendorSpecific,
}

impl HciOgf {
    /// The numeric code of this value on the wire.
    pub open spec fn code(self) -> u8 {
        match self {
            HciOgf::LinkControl => 0x1,
            HciOgf::LinkPolicy => 0x2,
            HciOgf::ControllerBaseband => 0x3,
            HciOgf::InfoParams => 0x4,
            HciOgf::StatusParams => 0x5,
            HciOgf::Testing => 0x6,
            HciOgf::LeController => 0x8,
            HciOgf::VendorSpecific => 0x3f,
        }
    }

    /// The numeric code of this value on the wire.
    pub fn to_u8(&self) -> (r: u8)
        ensures
            r == self.code(),
    {
        match self {
            HciOgf::LinkControl => 0x1,
            HciOgf::LinkPolicy => 0x2,
            HciOgf::ControllerBaseband => 0x3,
            HciOgf::InfoParams => 0x4,
            HciOgf::StatusParams => 0x5,
            HciOgf::Testing => 0x6,
            HciOgf::LeController => 0x8,
            HciOgf::VendorSpecific => 0x3f,
        }
    }

}

/// Create HCI opcode from OGF and OCF
pub fn hci_opcode(ogf: u8, ocf: u16) -> (r: u16)
    ensures
        r == ((ogf as u16) << 10) | (ocf & 0x3FF),
        ogf < 64 ==> r == 1024 * ogf + ocf % 1024,
{
    let r = ((ogf as u16) << 10) | (ocf & 0x3FF);
    assert(ogf < 64 ==> ((ogf as u16) << 10) | (ocf & 0x3FF) == 1024 * ogf + ocf % 1024) by (bit_vector);
    r
}

/// Extract OGF from opcode (its top six bits)
pub fn hci_ogf(opcode: u16) -> (r: u8)
    ensures
        r == opcode / 1024,
{
    assert(((opcode >> 10) & 0x3F) == opcode / 1024) by (bit_vector);
    ((opcode >> 10) & 0x3F) as u8
}

/// Extract OCF from opcode (its low ten bits)
pub fn hci_ocf(opcode: u16) -> (r: u16)
    ensures
        r == opcode % 1024,
{
    assert((opcode & 0x3FF) == opcode % 1024) by (bit_vector);
    opcode & 0x3FF
}

/// Splitting an opcode into OGF and OCF and joining them again gives it back.
pub proof fn lemma_opcode_split_join(opcode: u16)
    ensures
        1024 * (opcode / 1024) + (opcode % 1024) % 1024 == opcode,
        ((opcode / 1024) as u8) < 64,
{
}

pub const HCI_OP_INQUIRY: u16 = 0x0401;
pub const HCI_OP_INQUIRY_CANCEL: u16 = 0x0402;
pub const HCI_OP_CREATE_CONN: u16 = 0x0405;
pub const HCI_OP_DISCONNECT: u16 = 0x0406;
pub const HCI_OP_CREATE_CONN_CANCEL: u16 = 0x0408;
pub const HCI_OP_ACCEPT_CONN_REQ: u16 = 0x0409;
pub const HCI_OP_REJECT_CONN_REQ: u16 = 0x040A;
pub const HCI_OP_LINK_KEY_REPLY: u16 = 0x040B;
pub const HCI_OP_LINK_KEY_NEG_REPLY: u16 = 0x040C;
pub const HCI_OP_PIN_CODE_REPLY: u16 = 0x040D;
pub const HCI_OP_PIN_CODE_NEG_REPLY: u16 = 0x040E;
pub const HCI_OP_AUTH_REQUESTED: u16 = 0x0411;
pub const HCI_OP_SET_CONN_ENCRYPT: u16 = 0x0413;
pub const HCI_OP_REMOTE_NAME_REQ: u16 = 0x0419;
pub const HCI_OP_REMOTE_NAME_REQ_CANCEL: u16 = 0x041A;
pub const HCI_OP_READ_REMOTE_FEATURES: u16 = 0x041B;
pub const HCI_OP_READ_REMOTE_EXT_FEATURES: u16 = 0x041C;
pub const HCI_OP_READ_REMOTE_VERSION: u16 = 0x041D;
pub const HCI_OP_IO_CAPABILITY_REPLY: u16 = 0x042B;
pub const HCI_OP_USER_CONFIRM_REPLY: u16 = 0x042C;
pub const HCI_OP_USER_CONFIRM_NEG_REPLY: u16 = 0x042D;
pub const HCI_OP_USER_PASSKEY_REPLY: u16 = 0x042E;
pub const HCI_OP_USER_PASSKEY_NEG_REPLY: u16 = 0x042F;
pub const HCI_OP_IO_CAPABILITY_NEG_REPLY: u16 = 0x0434;
pub const HCI_OP_HOLD_MODE: u16 = 0x0801;
pub const HCI_OP_SNIFF_MODE: u16 = 0x0803;
pub const HCI_OP_EXIT_SNIFF_MODE: u16 = 0x0804;
pub const HCI_OP_QOS_SETUP: u16 = 0x0807;
pub const HCI_OP_ROLE_DISCOVERY: u16 = 0x0809;
pub const HCI_OP_SWITCH_ROLE: u16 = 0x080B;
pub const HCI_OP_READ_LINK_POLICY: u16 = 0x080C;
pub const HCI_OP_WRITE_LINK_POLICY: u16 = 0x080D;
pub const HCI_OP_READ_DEFAULT_LINK_POLICY: u16 = 0x080E;
pub const HCI_OP_WRITE_DEFAULT_LINK_POLICY: u16 = 0x080F;
pub const HCI_OP_SNIFF_SUBRATING: u16 = 0x0811;
pub const HCI_OP_SET_EVENT_MASK: u16 = 0x0C01;
pub const HCI_OP_RESET: u16 = 0x0C03;
pub const HCI_OP_SET_EVENT_FLT: u16 = 0x0C05;
pub const HCI_OP_DELETE_STORED_LINK_KEY: u16 = 0x0C12;
pub const HCI_OP_WRITE_LOCAL_NAME: u16 = 0x0C13;
pub const HCI_OP_READ_LOCAL_NAME: u16 = 0x0C14;
pub const HCI_OP_READ_CONN_ACCEPT_TIMEOUT: u16 = 0x0C15;
pub const HCI_OP_WRITE_CONN_ACCEPT_TIMEOUT: u16 = 0x0C16;
pub const HCI_OP_READ_PAGE_TIMEOUT: u16 = 0x0C17;
pub const HCI_OP_WRITE_PAGE_TIMEOUT: u16 = 0x0C18;
pub const HCI_OP_READ_SCAN_ENABLE: u16 = 0x0C19;
pub const HCI_OP_WRITE_SCAN_ENABLE: u16 = 0x0C1A;
pub const HCI_OP_READ_PAGE_SCAN_ACTIVITY: u16 = 0x0C1B;
pub const HCI_OP_WRITE_PAGE_SCAN_ACTIVITY: u16 = 0x0C1C;
pub const HCI_OP_READ_INQUIRY_SCAN_ACTIVITY: u16 = 0x0C1D;
pub const HCI_OP_WRITE_INQUIRY_SCAN_ACTIVITY: u16 = 0x0C1E;
pub const HCI_OP_READ_AUTH_ENABLE: u16 = 0x0C1F;
pub const HCI_OP_WRITE_AUTH_ENABLE: u16 = 0x0C20;
pub const HCI_OP_READ_CLASS_OF_DEV: u16 = 0x0C23;
pub const HCI_OP_WRITE_CLASS_OF_DEV: u16 = 0x0C24;
pub const HCI_OP_READ_VOICE_SETTING: u16 = 0x0C25;
pub const HCI_OP_WRITE_VOICE_SETTING: u16 = 0x0C26;
pub const HCI_OP_READ_NUM_SUPPORTED_IAC: u16 = 0x0C38;
pub const HCI_OP_READ_CURRENT_IAC_LAP: u16 = 0x0C39;
pub const HCI_OP_WRITE_CURRENT_IAC_LAP: u16 = 0x0C3A;
pub const HCI_OP_READ_INQ_RESP_TX_POWER: u16 = 0x0C58;
pub const HCI_OP_WRITE_INQ_TX_POWER: u16 = 0x0C59;
pub const HCI_OP_READ_SSP_MODE: u16 = 0x0C55;
pub const HCI_OP_WRITE_SSP_MODE: u16 = 0x0C56;
pub const HCI_OP_READ_LE_HOST_SUPPORTED: u16 = 0x0C6C;
pub const HCI_OP_WRITE_LE_HOST_SUPPORTED: u16 = 0x0C6D;
pub const HCI_OP_READ_SC_SUPPORT: u16 = 0x0C79;
pub const HCI_OP_WRITE_SC_SUPPORT: u16 = 0x0C7A;
pub const HCI_OP_READ_LOCAL_VERSION: u16 = 0x1001;
pub const HCI_OP_READ_LOCAL_COMMANDS: u16 = 0x1002;
pub const HCI_OP_READ_LOCAL_FEATURES: u16 = 0x1003;
pub const HCI_OP_READ_LOCAL_EXT_FEATURES: u16 = 0x1004;
pub const HCI_OP_READ_BUFFER_SIZE: u16 = 0x1005;
pub const HCI_OP_READ_BD_ADDR: u16 = 0x1009;
pub const HCI_OP_READ_DATA_BLOCK_SIZE: u16 = 0x100A;
pub const HCI_OP_READ_LOCAL_CODECS: u16 = 0x100B;
pub const HCI_OP_READ_LOCAL_CODECS_V2: u16 = 0x100D;
pub const HCI_OP_READ_RSSI: u16 = 0x1405;
pub const HCI_OP_READ_CLOCK: u16 = 0x1407;
pub const HCI_OP_LE_SET_EVENT_MASK: u16 = 0x2001;
pub const HCI_OP_LE_READ_BUFFER_SIZE: u16 = 0x2002;
pub const HCI_OP_LE_READ_LOCAL_FEATURES: u16 = 0x2003;
pub const HCI_OP_LE_SET_RANDOM_ADDR: u16 = 0x2005;
pub const HCI_OP_LE_SET_ADV_PARAM: u16 = 0x2006;
pub const HCI_OP_LE_READ_ADV_TX_POWER: u16 = 0x2007;
pub const HCI_OP_LE_SET_ADV_DATA: u16 = 0x2008;
pub const HCI_OP_LE_SET_SCAN_RSP_DATA: u16 = 0x2009;
pub const HCI_OP_LE_SET_ADV_ENABLE: u16 = 0x200A;
pub const HCI_OP_LE_SET_SCAN_PARAM: u16 = 0x200B;
pub const HCI_OP_LE_SET_SCAN_ENABLE: u16 = 0x200C;
pub const HCI_OP_LE_CREATE_CONN: u16 = 0x200D;
pub const HCI_OP_LE_CREATE_CONN_CANCEL: u16 = 0x200E;
pub const HCI_OP_LE_READ_ACCEPT_LIST_SIZE: u16 = 0x200F;
pub const HCI_OP_LE_CLEAR_ACCEPT_LIST: u16 = 0x2010;
pub const HCI_OP_LE_ADD_TO_ACCEPT_LIST: u16 = 0x2011;
pub const HCI_OP_LE_REMOVE_FROM_ACCEPT_LIST: u16 = 0x2012;
pub const HCI_OP_LE_CONN_UPDATE: u16 = 0x2013;
pub const HCI_OP_LE_READ_REMOTE_FEATURES: u16 = 0x2016;
pub const HCI_OP_LE_ENCRYPT: u16 = 0x2017;
pub const HCI_OP_LE_RAND: u16 = 0x2018;
pub const HCI_OP_LE_START_ENC: u16 = 0x2019;
pub const HCI_OP_LE_LTK_REPLY: u16 = 0x201A;
pub const HCI_OP_LE_LTK_NEG_REPLY: u16 = 0x201B;
pub const HCI_OP_LE_READ_SUPPORTED_STATES: u16 = 0x201C;
pub const HCI_OP_LE_SET_DATA_LEN: u16 = 0x2022;
pub const HCI_OP_LE_READ_DEF_DATA_LEN: u16 = 0x2023;
pub const HCI_OP_LE_WRITE_DEF_DATA_LEN: u16 = 0x2024;
pub const HCI_OP_LE_ADD_TO_RESOLV_LIST: u16 = 0x2027;
pub const HCI_OP_LE_REMOVE_FROM_RESOLV_LIST: u16 = 0x2028;
pub const HCI_OP_LE_CLEAR_RESOLV_LIST: u16 = 0x2029;
pub const HCI_OP_LE_READ_RESOLV_LIST_SIZE: u16 = 0x202A;
pub const HCI_OP_LE_SET_ADDR_RESOLV_ENABLE: u16 = 0x202D;
pub const HCI_OP_LE_READ_MAX_DATA_LEN: u16 = 0x202F;
pub const HCI_OP_LE_READ_PHY: u16 = 0x2030;
pub const HCI_OP_LE_SET_DEFAULT_PHY: u16 = 0x2031;
pub const HCI_OP_LE_SET_PHY: u16 = 0x2032;
pub const HCI_OP_LE_SET_EXT_ADV_PARAM: u16 = 0x2036;
pub const HCI_OP_LE_SET_EXT_ADV_DATA: u16 = 0x2037;
pub const HCI_OP_LE_SET_EXT_SCAN_RSP_DATA: u16 = 0x2038;
pub const HCI_OP_LE_SET_EXT_ADV_ENABLE: u16 = 0x2039;
pub const HCI_OP_LE_SET_EXT_SCAN_PARAM: u16 = 0x2041;
pub const HCI_OP_LE_SET_EXT_SCAN_ENABLE: u16 = 0x2042;
pub const HCI_OP_LE_EXT_CREATE_CONN: u16 = 0x2043;
pub const HCI_OP_LE_READ_TX_POWER: u16 = 0x204B;
pub const HCI_OP_LE_SET_PRIVACY_MODE: u16 = 0x204E;

/// HCI event codes
#[derive(Clone, Copy, Debug, PartialEq, Eq, Structural)]
pub enum HciEventCode {
    /// Inquiry complete
    InquiryComplete,
    /// Inquiry result
    InquiryResult,
    /// Connection complete
    ConnectionComplete,
    /// Connection request
    ConnectionRequest,
    /// Disconnection complete
    DisconnectionComplete,
    /// Authentication complete
    AuthenticationComplete,
    /// Remote name request complete
    RemoteNameReqComplete,
    /// Encryption change
    EncryptionChange,
    /// Change connection link key complete
    ChangeConnLinkKeyComplete,
    /// Read remote features complete
    ReadRemoteFeaturesComplete,
    /// Read remote version complete
    ReadRemoteVersionComplete,
    /// QoS setup complete
    QosSetupComplete,
    /// Command complete
    CommandComplete,
    /// Command status
    CommandStatus,
    /// Hardware error
    HardwareError,
    /// Role change
    RoleChange,
    /// Number of completed packets
    NumCompletedPackets,
    /// Mode change
    ModeChange,
    /// PIN code request
    PinCodeRequest,
    /// Link key request
    LinkKeyRequest,
    /// Link key notification
    LinkKeyNotification,
    /// Data buffer overflow
    DataBufferOverflow,
    /// Max slots change
    MaxSlotsChange,
    /// Read clock offset complete
    ReadClockOffsetComplete,
    /// Connection packet type changed
    ConnPacketTypeChanged,
    /// Page scan repetition mode change
    PageScanRepModeChange,
    /// Inquiry result with RSSI
    InquiryResultRssi,
    /// Read remote extended features complete
    ReadRemoteExtFeaturesComplete,
    /// Synchronous connection complete
    SyncConnectionComplete,
    /// Synchronous connection changed
    SyncConnectionChanged,
    /// Sniff subrating
    SniffSubrating,
    /// Extended inquiry result
    ExtendedInquiryResult,
    /// Encryption key refresh complete
    EncryptionKeyRefreshComplete,
    /// IO capability request
    IoCapabilityRequest,
    /// IO capability response
    IoCapabilityResponse,
    /// User confirmation request
    UserConfirmationRequest,
    /// User passkey request
    UserPasskeyRequest,
    /// Remote OOB data request
    RemoteOobDataRequest,
    /// Simple pairing complete
    SimplePairingComplete,
    /// Link supervision timeout changed
    LinkSupervisionTimeoutChanged,
    /// User passkey notification
    UserPasskeyNotification,
    /// Keypress notification
    KeypressNotification,
    /// Remote host supported features notification
    RemoteHostSupportedFeaturesNotification,
    /// LE meta event
    LeMeta,
    /// Number of completed data blocks
    NumCompletedDataBlocks,
    /// Vendor specific
    VendorSpecific,
}

impl HciEventCode {
    /// The numeric code of this value on the wire.
    pub open spec fn code(self) -> u8 {
        match self {
            HciEventCode::InquiryComplete => 0x1,
            HciEventCode::InquiryResult => 0x2,
            HciEventCode::ConnectionComplete => 0x3,
            HciEventCode::ConnectionRequest => 0x4,
            HciEventCode::DisconnectionComplete => 0x5,
            HciEventCode::AuthenticationComplete => 0x6,
            HciEventCode::RemoteNameReqComplete => 0x7,
            HciEventCode::EncryptionChange => 0x8,
            HciEventCode::ChangeConnLinkKeyComplete => 0x9,
            HciEventCode::ReadRemoteFeaturesComplete => 0xb,
            HciEventCode::ReadRemoteVersionComplete => 0xc,
            HciEventCode::QosSetupComplete => 0xd,
            HciEventCode::CommandComplete => 0xe,
            HciEventCode::CommandStatus => 0xf,
            HciEventCode::HardwareError => 0x10,
            HciEventCode::RoleChange => 0x12,
            HciEventCode::NumCompletedPackets => 0x13,
            HciEventCode::ModeChange => 0x14,
            HciEventCode::PinCodeRequest => 0x16,
            HciEventCode::LinkKeyRequest => 0x17,
            HciEventCode::LinkKeyNotification => 0x18,
            HciEventCode::DataBufferOverflow => 0x1a,
            HciEventCode::MaxSlotsChange => 0x1b,
            HciEventCode::ReadClockOffsetComplete => 0x1c,
            HciEventCode::ConnPacketTypeChanged => 0x1d,
            HciEventCode::PageScanRepModeChange => 0x20,
            HciEventCode::InquiryResultRssi => 0x22,
            HciEventCode::ReadRemoteExtFeaturesComplete => 0x23,
            HciEventCode::SyncConnectionComplete => 0x2c,
            HciEventCode::SyncConnectionChanged => 0x2d,
            HciEventCode::SniffSubrating => 0x2e,
            HciEventCode::ExtendedInquiryResult => 0x2f,
            HciEventCode::EncryptionKeyRefreshComplete => 0x30,
            HciEventCode::IoCapabilityRequest => 0x31,
            HciEventCode::IoCapabilityResponse => 0x32,
            HciEventCode::UserConfirmationRequest => 0x33,
            HciEventCode::UserPasskeyRequest => 0x34,
            HciEventCode::RemoteOobDataRequest => 0x35,
            HciEventCode::SimplePairingComplete => 0x36,
            HciEventCode::LinkSupervisionTimeoutChanged => 0x38,
            HciEventCode::UserPasskeyNotification => 0x3b,
            HciEventCode::KeypressNotification => 0x3c,
            HciEventCode::RemoteHostSupportedFeaturesNotification => 0x3d,
            HciEventCode::LeMeta => 0x3e,
            HciEventCode::NumCompletedDataBlocks => 0x48,
            HciEventCode::VendorSpecific => 0xff,
        }
    }

    /// The numeric code of this value on the wire.
    pub fn to_u8(&self) -> (r: u8)
        ensures
            r == self.code(),
    {
        match self {
            HciEventCode::InquiryComplete => 0x1,
            HciEventCode::InquiryResult => 0x2,
            HciEventCode::ConnectionComplete => 0x3,
            HciEventCode::ConnectionRequest => 0x4,
            HciEventCode::DisconnectionComplete => 0x5,
            HciEventCode::AuthenticationComplete => 0x6,
            HciEventCode::RemoteNameReqComplete => 0x7,
            HciEventCode::EncryptionChange => 0x8,
            HciEventCode::ChangeConnLinkKeyComplete => 0x9,
            HciEventCode::ReadRemoteFeaturesComplete => 0xb,
            HciEventCode::ReadRemoteVersionComplete => 0xc,
            HciEventCode::QosSetupComplete => 0xd,
            HciEventCode::CommandComplete => 0xe,
            HciEventCode::CommandStatus => 0xf,
            HciEventCode::HardwareError => 0x10,
            HciEventCode::RoleChange => 0x12,
            HciEventCode::NumCompletedPackets => 0x13,
            HciEventCode::ModeChange => 0x14,
            HciEventCode::PinCodeRequest => 0x16,
            HciEventCode::LinkKeyRequest => 0x17,
            HciEventCode::LinkKeyNotification => 0x18,
            HciEventCode::DataBufferOverflow => 0x1a,
            HciEventCode::MaxSlotsChange => 0x1b,
            HciEventCode::ReadClockOffsetComplete => 0x1c,
            HciEventCode::ConnPacketTypeChanged => 0x1d,
            HciEventCode::PageScanRepModeChange => 0x20,
            HciEventCode::InquiryResultRssi => 0x22,
            HciEventCode::ReadRemoteExtFeaturesComplete => 0x23,
            HciEventCode::SyncConnectionComplete => 0x2c,
            HciEventCode::SyncConnectionChanged => 0x2d,
            HciEventCode::SniffSubrating => 0x2e,
            HciEventCode::ExtendedInquiryResult => 0x2f,
            HciEventCode::EncryptionKeyRefreshComplete => 0x30,
            HciEventCode::IoCapabilityRequest => 0x31,
            HciEventCode::IoCapabilityResponse => 0x32,
            HciEventCode::UserConfirmationRequest => 0x33,
            HciEventCode::UserPasskeyRequest => 0x34,
            HciEventCode::RemoteOobDataRequest => 0x35,
            HciEventCode::SimplePairingComplete => 0x36,
            HciEventCode::LinkSupervisionTimeoutChanged => 0x38,
            HciEventCode::UserPasskeyNotification => 0x3b,
            HciEventCode::KeypressNotification => 0x3c,
            HciEventCode::RemoteHostSupportedFeaturesNotification => 0x3d,
            HciEventCode::LeMeta => 0x3e,
            HciEventCode::NumCompletedDataBlocks => 0x48,
            HciEventCode::VendorSpecific => 0xff,
        }
    }

}

/// LE meta event sub-codes
#[derive(Clone, Copy, Debug, PartialEq, Eq, Structural)]
pub enum LeMetaEvent {
    /// LE connection complete
    ConnectionComplete,
    /// LE advertising report
    AdvertisingReport,
    /// LE connection update complete
    ConnectionUpdateComplete,
    /// LE read remote features complete
    ReadRemoteFeaturesComplete,
    /// LE long term key request
    LongTermKeyRequest,
    /// LE remote connection parameter request
    RemoteConnParamRequest,
    /// LE data length change
    DataLengthChange,
    /// LE read local P-256 public key complete
    ReadLocalP256PublicKeyComplete,
    /// LE generate DHKey complete
    GenerateDhKeyComplete,
    /// LE enhanced connection complete
    EnhancedConnectionComplete,
    /// LE direct advertising report
    DirectAdvertisingReport,
    /// LE PHY update complete
    PhyUpdateComplete,
    /// LE extended advertising report
    ExtendedAdvertisingReport,
    /// LE periodic advertising sync established
    PeriodicAdvSyncEstablished,
    /// LE periodic advertising report
    PeriodicAdvReport,
    /// LE periodic advertising sync lost
    PeriodicAdvSyncLost,
    /// LE scan timeout
    ScanTimeout,
    /// LE advertising set terminated
    AdvSetTerminated,
    /// LE scan request received
    ScanRequestReceived,
    /// LE channel selection algorithm
    ChannelSelAlgorithm,
}

impl LeMetaEvent {
    /// The numeric code of this value on the wire.
    pub open spec fn code(self) -> u8 {
        match self {
            LeMetaEvent::ConnectionComplete => 0x1,
            LeMetaEvent::AdvertisingReport => 0x2,
            LeMetaEvent::ConnectionUpdateComplete => 0x3,
            LeMetaEvent::ReadRemoteFeaturesComplete => 0x4,
            LeMetaEvent::LongTermKeyRequest => 0x5,
            LeMetaEvent::RemoteConnParamRequest => 0x6,
            LeMetaEvent::DataLengthChange => 0x7,
            LeMetaEvent::ReadLocalP256PublicKeyComplete => 0x8,
            LeMetaEvent::GenerateDhKeyComplete => 0x9,
            LeMetaEvent::EnhancedConnectionComplete => 0xa,
            LeMetaEvent::DirectAdvertisingReport => 0xb,
            LeMetaEvent::PhyUpdateComplete => 0xc,
            LeMetaEvent::ExtendedAdvertisingReport => 0xd,
            LeMetaEvent::PeriodicAdvSyncEstablished => 0xe,
            LeMetaEvent::PeriodicAdvReport => 0xf,
            LeMetaEvent::PeriodicAdvSyncLost => 0x10,
            LeMetaEvent::ScanTimeout => 0x11,
            LeMetaEvent::AdvSetTerminated => 0x12,
            LeMetaEvent::ScanRequestReceived => 0x13,
            LeMetaEvent::ChannelSelAlgorithm => 0x14,
        }
    }

    /// The numeric code of this value on the wire.
    pub fn to_u8(&self) -> (r: u8)
        ensures
            r == self.code(),
    {
        match self {
            LeMetaEvent::ConnectionComplete => 0x1,
            LeMetaEvent::AdvertisingReport => 0x2,
            LeMetaEvent::ConnectionUpdateComplete => 0x3,
            LeMetaEvent::ReadRemoteFeaturesComplete => 0x4,
            LeMetaEvent::LongTermKeyRequest => 0x5,
            LeMetaEvent::RemoteConnParamRequest => 0x6,
            LeMetaEvent::DataLengthChange => 0x7,
            LeMetaEvent::ReadLocalP256PublicKeyComplete => 0x8,
            LeMetaEvent::GenerateDhKeyComplete => 0x9,
            LeMetaEvent::EnhancedConnectionComplete => 0xa,
            LeMetaEvent::DirectAdvertisingReport => 0xb,
            LeMetaEvent::PhyUpdateComplete => 0xc,
            LeMetaEvent::ExtendedAdvertisingReport => 0xd,
            LeMetaEvent::PeriodicAdvSyncEstablished => 0xe,
            LeMetaEvent::PeriodicAdvReport => 0xf,
            LeMetaEvent::PeriodicAdvSyncLost => 0x10,
            LeMetaEvent::ScanTimeout => 0x11,
            LeMetaEvent::AdvSetTerminated => 0x12,
            LeMetaEvent::ScanRequestReceived => 0x13,
            LeMetaEvent::ChannelSelAlgorithm => 0x14,
        }
    }

}

/// HCI status/error codes
#[derive(Clone, Copy, Debug, PartialEq, Eq, Structural)]
pub enum HciStatus {
    Success,
    UnknownCommand,
    NoConnection,
    HardwareFailure,
    PageTimeout,
    AuthenticationFailure,
    PinOrKeyMissing,
    MemoryFull,
    ConnectionTimeout,
    MaxConnections,
    MaxScoConnections,
    AclConnectionExists,
    CommandDisallowed,
    RejectedLimitedResources,
    RejectedSecurity,
    RejectedPersonal,
    HostTimeout,
    UnsupportedFeature,
    InvalidParameters,
    RemoteUserTerminated,
    RemoteLowResources,
    RemotePowerOff,
    LocalHostTerminated,
    RepeatedAttempts,
    PairingNotAllowed,
    UnknownLmpPdu,
    UnsupportedRemoteFeature,
    ScoOffsetRejected,
    ScoIntervalRejected,
    ScoAirModeRejected,
    InvalidLmpParameters,
    UnspecifiedError,
    UnsupportedLmpParameter,
    RoleChangeNotAllowed,
    LmpResponseTimeout,
    LmpTransactionCollision,
    LmpPduNotAllowed,
    EncryptionModeNotAcceptable,
    UnitKeyUsed,
    QosNotSupported,
    InstantPassed,
    PairingUnitKeyNotSupported,
    DifferentTransactionCollision,
    QosUnacceptableParameter,
    QosRejected,
    ChannelClassNotSupported,
    InsufficientSecurity,
    ParameterOutOfRange,
    RoleSwitchPending,
    SlotViolation,
    RoleSwitchFailed,
    EirTooLarge,
    SimplePairingNotSupported,
    HostBusyPairing,
    ConnectionRejectedNoChannel,
    ControllerBusy,
    UnacceptableConnParams,
    AdvertisingTimeout,
    ConnectionTerminatedMic,
    ConnectionFailedEstablishment,
    MacConnectionFailed,
    CoarseClock,
}

impl HciStatus {
    /// The numeric code of this value on the wire.
    pub open spec fn code(self) -> u8 {
        match self {
            HciStatus::Success => 0x0,
            HciStatus::UnknownCommand => 0x1,
            HciStatus::NoConnection => 0x2,
            HciStatus::HardwareFailure => 0x3,
            HciStatus::PageTimeout => 0x4,
            HciStatus::AuthenticationFailure => 0x5,
            HciStatus::PinOrKeyMissing => 0x6,
            HciStatus::MemoryFull => 0x7,
            HciStatus::ConnectionTimeout => 0x8,
            HciStatus::MaxConnections => 0x9,
            HciStatus::MaxScoConnections => 0xa,
            HciStatus::AclConnectionExists => 0xb,
            HciStatus::CommandDisallowed => 0xc,
            HciStatus::RejectedLimitedResources => 0xd,
            HciStatus::RejectedSecurity => 0xe,
            HciStatus::RejectedPersonal => 0xf,
            HciStatus::HostTimeout => 0x10,
            HciStatus::UnsupportedFeature => 0x11,
            HciStatus::InvalidParameters => 0x12,
            HciStatus::RemoteUserTerminated => 0x13,
            HciStatus::RemoteLowResources => 0x14,
            HciStatus::RemotePowerOff => 0x15,
            HciStatus::LocalHostTerminated => 0x16,
            HciStatus::RepeatedAttempts => 0x17,
            HciStatus::PairingNotAllowed => 0x18,
            HciStatus::UnknownLmpPdu => 0x19,
            HciStatus::UnsupportedRemoteFeature => 0x1a,
            HciStatus::ScoOffsetRejected => 0x1b,
            HciStatus::ScoIntervalRejected => 0x1c,
            HciStatus::ScoAirModeRejected => 0x1d,
            HciStatus::InvalidLmpParameters => 0x1e,
            HciStatus::UnspecifiedError => 0x1f,
            HciStatus::UnsupportedLmpParameter => 0x20,
            HciStatus::RoleChangeNotAllowed => 0x21,
            HciStatus::LmpResponseTimeout => 0x22,
            HciStatus::LmpTransactionCollision => 0x23,
            HciStatus::LmpPduNotAllowed => 0x24,
            HciStatus::EncryptionModeNotAcceptable => 0x25,
            HciStatus::UnitKeyUsed => 0x26,
            HciStatus::QosNotSupported => 0x27,
            HciStatus::InstantPassed => 0x28,
            HciStatus::PairingUnitKeyNotSupported => 0x29,
            HciStatus::DifferentTransactionCollision => 0x2a,
            HciStatus::QosUnacceptableParameter => 0x2c,
            HciStatus::QosRejected => 0x2d,
            HciStatus::ChannelClassNotSupported => 0x2e,
            HciStatus::InsufficientSecurity => 0x2f,
            HciStatus::ParameterOutOfRange => 0x30,
            HciStatus::RoleSwitchPending => 0x32,
            HciStatus::SlotViolation => 0x34,
            HciStatus::RoleSwitchFailed => 0x35,
            HciStatus::EirTooLarge => 0x36,
            HciStatus::SimplePairingNotSupported => 0x37,
            HciStatus::HostBusyPairing => 0x38,
            HciStatus::ConnectionRejectedNoChannel => 0x39,
            HciStatus::ControllerBusy => 0x3a,
            HciStatus::UnacceptableConnParams => 0x3b,
            HciStatus::AdvertisingTimeout => 0x3c,
            HciStatus::ConnectionTerminatedMic => 0x3d,
            HciStatus::ConnectionFailedEstablishment => 0x3e,
            HciStatus::MacConnectionFailed => 0x3f,
            HciStatus::CoarseClock => 0x40,
        }
    }

    /// The numeric code of this value on the wire.
    pub fn to_u8(&self) -> (r: u8)
        ensures
            r == self.code(),
    {
        match self {
            HciStatus::Success => 0x0,
            HciStatus::UnknownCommand => 0x1,
            HciStatus::NoConnection => 0x2,
            HciStatus::HardwareFailure => 0x3,
            HciStatus::PageTimeout => 0x4,
            HciStatus::AuthenticationFailure => 0x5,
            HciStatus::PinOrKeyMissing => 0x6,
            HciStatus::MemoryFull => 0x7,
            HciStatus::ConnectionTimeout => 0x8,
            HciStatus::MaxConnections => 0x9,
            HciStatus::MaxScoConnections => 0xa,
            HciStatus::AclConnectionExists => 0xb,
            HciStatus::CommandDisallowed => 0xc,
            HciStatus::RejectedLimitedResources => 0xd,
            HciStatus::RejectedSecurity => 0xe,
            HciStatus::RejectedPersonal => 0xf,
            HciStatus::HostTimeout => 0x10,
            HciStatus::UnsupportedFeature => 0x11,
            HciStatus::InvalidParameters => 0x12,
            HciStatus::RemoteUserTerminated => 0x13,
            HciStatus::RemoteLowResources => 0x14,
            HciStatus::RemotePowerOff => 0x15,
            HciStatus::LocalHostTerminated => 0x16,
            HciStatus::RepeatedAttempts => 0x17,
            HciStatus::PairingNotAllowed => 0x18,
            HciStatus::UnknownLmpPdu => 0x19,
            HciStatus::UnsupportedRemoteFeature => 0x1a,
            HciStatus::ScoOffsetRejected => 0x1b,
            HciStatus::ScoIntervalRejected => 0x1c,
            HciStatus::ScoAirModeRejected => 0x1d,
            HciStatus::InvalidLmpParameters => 0x1e,
            HciStatus::UnspecifiedError => 0x1f,
            HciStatus::UnsupportedLmpParameter => 0x20,
            HciStatus::RoleChangeNotAllowed => 0x21,
            HciStatus::LmpResponseTimeout => 0x22,
            HciStatus::LmpTransactionCollision => 0x23,
            HciStatus::LmpPduNotAllowed => 0x24,
            HciStatus::EncryptionModeNotAcceptable => 0x25,
            HciStatus::UnitKeyUsed => 0x26,
            HciStatus::QosNotSupported => 0x27,
            HciStatus::InstantPassed => 0x28,
            HciStatus::PairingUnitKeyNotSupported => 0x29,
            HciStatus::DifferentTransactionCollision => 0x2a,
            HciStatus::QosUnacceptableParameter => 0x2c,
            HciStatus::QosRejected => 0x2d,
            HciStatus::ChannelClassNotSupported => 0x2e,
            HciStatus::InsufficientSecurity => 0x2f,
            HciStatus::ParameterOutOfRange => 0x30,
            HciStatus::RoleSwitchPending => 0x32,
            HciStatus::SlotViolation => 0x34,
            HciStatus::RoleSwitchFailed => 0x35,
            HciStatus::EirTooLarge => 0x36,
            HciStatus::SimplePairingNotSupported => 0x37,
            HciStatus::HostBusyPairing => 0x38,
            HciStatus::ConnectionRejectedNoChannel => 0x39,
            HciStatus::ControllerBusy => 0x3a,
            HciStatus::UnacceptableConnParams => 0x3b,
            HciStatus::AdvertisingTimeout => 0x3c,
            HciStatus::ConnectionTerminatedMic => 0x3d,
            HciStatus::ConnectionFailedEstablishment => 0x3e,
            HciStatus::MacConnectionFailed => 0x3f,
            HciStatus::CoarseClock => 0x40,
        }
    }

}

/// The status a controller byte stands for; codes without a variant of
/// their own read as an unspecified error.
pub open spec fn status_from_byte(v: u8) -> HciStatus {
    if v == 0x00 { HciStatus::Success }
    else if v == 0x01 { HciStatus::UnknownCommand }
    else if v == 0x02 { HciStatus::NoConnection }
    else if v == 0x03 { HciStatus::HardwareFailure }
    else if v == 0x04 { HciStatus::PageTimeout }
    else if v == 0x05 { HciStatus::AuthenticationFailure }
    else if v == 0x06 { HciStatus::PinOrKeyMissing }
    else if v == 0x07 { HciStatus::MemoryFull }
    else if v == 0x08 { HciStatus::ConnectionTimeout }
    else if v == 0x13 { HciStatus::RemoteUserTerminated }
    else if v == 0x16 { HciStatus::LocalHostTerminated }
    else { HciStatus::UnspecifiedError }
}

impl From<u8> for HciStatus {
    fn from(value: u8) -> (r: Self) {
        match value {
            0x00 => HciStatus::Success,
            0x01 => HciStatus::UnknownCommand,
            0x02 => HciStatus::NoConnection,
            0x03 => HciStatus::HardwareFailure,
            0x04 => HciStatus::PageTimeout,
            0x05 => HciStatus::AuthenticationFailure,
            0x06 => HciStatus::PinOrKeyMissing,
            0x07 => HciStatus::MemoryFull,
            0x08 => HciStatus::ConnectionTimeout,
            0x13 => HciStatus::RemoteUserTerminated,
            0x16 => HciStatus::LocalHostTerminated,
            _ => HciStatus::UnspecifiedError,
        }
    }
}

impl vstd::std_specs::convert::FromSpecImpl<u8> for HciStatus {
    open spec fn obeys_from_spec() -> bool {
        true
    }

    open spec fn from_spec(v: u8) -> Self {
        status_from_byte(v)
    }
}

/// HCI command packet
#[derive(Clone, Debug)]
pub struct HciCommand {
    /// Opcode
    pub opcode: u16,
    /// Parameters
    pub params: Vec<u8>,
}

/// The six address bytes as they go on the wire.
pub open spec fn addr_bytes(a: BdAddr) -> Seq<u8> {
    a.0@
}

/// Append the six bytes of an address.
pub fn push_addr(v: &mut Vec<u8>, a: &BdAddr)
    ensures
        final(v)@ == old(v)@ + a.0@,
{
    let b = a.0;
    v.push(b[0]);
    v.push(b[1]);
    v.push(b[2]);
    v.push(b[3]);
    v.push(b[4]);
    v.push(b[5]);
    assert(final(v)@ =~= old(v)@ + a.0@);
}

/// The wire form of a command: opcode (LE), parameter length byte, parameters.
pub open spec fn command_bytes(opcode: u16, params: Seq<u8>) -> Seq<u8> {
    le16(opcode) + seq![(params.len() % 256) as u8] + params
}

/// The code the address type has in HCI LE commands.
pub open spec fn address_type_code(t: AddressType) -> u8 {
    match t {
        AddressType::BrEdr => 0,
        AddressType::LePublic => 1,
        AddressType::LeRandom => 2,
    }
}

impl HciCommand {
    /// Create new HCI command
    pub fn new(opcode: u16, params: Vec<u8>) -> (r: Self)
        ensures
            r.opcode == opcode,
            r.params@ == params@,
    {
        HciCommand { opcode, params }
    }

    /// Create reset command
    pub fn reset() -> (r: Self)
        ensures
            r.opcode == HCI_OP_RESET,
            r.params@ == Seq::<u8>::empty(),
    {
        Self::new(HCI_OP_RESET, Vec::new())
    }

    /// Create read BD_ADDR command
    pub fn read_bd_addr() -> (r: Self)
        ensures
            r.opcode == HCI_OP_READ_BD_ADDR,
            r.params@ == Seq::<u8>::empty(),
    {
        Self::new(HCI_OP_READ_BD_ADDR, Vec::new())
    }

    /// Create read local version command
    pub fn read_local_version() -> (r: Self)
        ensures
            r.opcode == HCI_OP_READ_LOCAL_VERSION,
            r.params@ == Seq::<u8>::empty(),
    {
        Self::new(HCI_OP_READ_LOCAL_VERSION, Vec::new())
    }

    /// Create read local features command
    pub fn read_local_features() -> (r: Self)
        ensures
            r.opcode == HCI_OP_READ_LOCAL_FEATURES,
            r.params@ == Seq::<u8>::empty(),
    {
        Self::new(HCI_OP_READ_LOCAL_FEATURES, Vec::new())
    }

    /// Create write scan enable command
    pub fn write_scan_enable(scan_enable: u8) -> (r: Self)
        ensures
            r.opcode == HCI_OP_WRITE_SCAN_ENABLE,
            r.params@ == seq![scan_enable],
    {
        let mut p: Vec<u8> = Vec::new();
        p.push(scan_enable);
        Self::new(HCI_OP_WRITE_SCAN_ENABLE, p)
    }

    /// Create set event mask command
    pub fn set_event_mask(mask: u64) -> (r: Self)
        ensures
            r.opcode == HCI_OP_SET_EVENT_MASK,
            r.params@ == crate::wire::le64(mask),
    {
        let mut p: Vec<u8> = Vec::new();
        crate::wire::push_u64_le(&mut p, mask);
        assert(p@ =~= crate::wire::le64(mask));
        Self::new(HCI_OP_SET_EVENT_MASK, p)
    }

    /// Create LE set scan parameters command
    pub fn le_set_scan_params(scan_type: u8, interval: u16, window: u16, own_addr_type: u8, filter_policy: u8) -> (r: Self)
        ensures
            r.opcode == HCI_OP_LE_SET_SCAN_PARAM,
            r.params@ == seq![scan_type] + le16(interval) + le16(window) + seq![own_addr_type, filter_policy],
    {
        let mut p: Vec<u8> = Vec::new();
        p.push(scan_type);
        push_u16_le(&mut p, interval);
        push_u16_le(&mut p, window);
        p.push(own_addr_type);
        p.push(filter_policy);
        assert(p@ =~= seq![scan_type] + le16(interval) + le16(window) + seq![own_addr_type, filter_policy]);
        Self::new(HCI_OP_LE_SET_SCAN_PARAM, p)
    }

    /// Create LE set scan enable command
    pub fn le_set_scan_enable(enable: bool, filter_duplicates: bool) -> (r: Self)
        ensures
            r.opcode == HCI_OP_LE_SET_SCAN_ENABLE,
            r.params@ == seq![flag_byte(enable), flag_byte(filter_duplicates)],
    {
        let mut p: Vec<u8> = Vec::new();
        p.push(crate::wire::bool_byte(enable));
        p.push(crate::wire::bool_byte(filter_duplicates));
        assert(p@ =~= seq![flag_byte(enable), flag_byte(filter_duplicates)]);
        Self::new(HCI_OP_LE_SET_SCAN_ENABLE, p)
    }

    /// Create LE set advertising parameters command
    pub fn le_set_adv_params(
        interval_min: u16,
        interval_max: u16,
        adv_type: u8,
        own_addr_type: u8,
        peer_addr_type: u8,
        peer_addr: &BdAddr,
        channel_map: u8,
        filter_policy: u8,
    ) -> (r: Self)
        ensures
            r.opcode == HCI_OP_LE_SET_ADV_PARAM,
            r.params@ == le16(interval_min) + le16(interval_max) + seq![adv_type, own_addr_type, peer_addr_type]
                + peer_addr.0@ + seq![channel_map, filter_policy],
    {
        let mut p: Vec<u8> = Vec::new();
        push_u16_le(&mut p, interval_min);
        push_u16_le(&mut p, interval_max);
        p.push(adv_type);
        p.push(own_addr_type);
        p.push(peer_addr_type);
        push_addr(&mut p, peer_addr);
        p.push(channel_map);
        p.push(filter_policy);
        assert(p@ =~= le16(interval_min) + le16(interval_max) + seq![adv_type, own_addr_type, peer_addr_type]
            + peer_addr.0@ + seq![channel_map, filter_policy]);
        Self::new(HCI_OP_LE_SET_ADV_PARAM, p)
    }

    /// Create LE set advertising enable command
    pub fn le_set_adv_enable(enable: bool) -> (r: Self)
        ensures
            r.opcode == HCI_OP_LE_SET_ADV_ENABLE,
            r.params@ == seq![flag_byte(enable)],
    {
        let mut p: Vec<u8> = Vec::new();
        p.push(crate::wire::bool_byte(enable));
        Self::new(HCI_OP_LE_SET_ADV_ENABLE, p)
    }

    /// Create inquiry command (the LAP is sent as its low three bytes)
    pub fn inquiry(lap: u32, inquiry_length: u8, num_responses: u8) -> (r: Self)
        ensures
            r.opcode == HCI_OP_INQUIRY,
            r.params@ == seq![(lap % 256) as u8, ((lap / 256) % 256) as u8, ((lap / 65536) % 256) as u8,
                inquiry_length, num_responses],
    {
        let mut p: Vec<u8> = Vec::new();
        p.push(crate::wire::byte_of_u32(lap, 0));
        p.push(crate::wire::byte_of_u32(lap, 1));
        p.push(crate::wire::byte_of_u32(lap, 2));
        p.push(inquiry_length);
        p.push(num_responses);
        assert(p@ =~= seq![(lap % 256) as u8, ((lap / 256) % 256) as u8, ((lap / 65536) % 256) as u8,
            inquiry_length, num_responses]);
        Self::new(HCI_OP_INQUIRY, p)
    }

    /// Create inquiry cancel command
    pub fn inquiry_cancel() -> (r: Self)
        ensures
            r.opcode == HCI_OP_INQUIRY_CANCEL,
            r.params@ == Seq::<u8>::empty(),
    {
        Self::new(HCI_OP_INQUIRY_CANCEL, Vec::new())
    }

    /// Create connection command
    pub fn create_connection(
        address: &BdAddr,
        packet_type: u16,
        page_scan_rep_mode: u8,
        clock_offset: u16,
        allow_role_switch: bool,
    ) -> (r: Self)
        ensures
            r.opcode == HCI_OP_CREATE_CONN,
            r.params@ == address.0@ + le16(packet_type) + seq![page_scan_rep_mode, 0u8] + le16(clock_offset)
                + seq![flag_byte(allow_role_switch)],
    {
        let mut p: Vec<u8> = Vec::new();
        push_addr(&mut p, address);
        push_u16_le(&mut p, packet_type);
        p.push(page_scan_rep_mode);
        p.push(0);
        push_u16_le(&mut p, clock_offset);
        p.push(crate::wire::bool_byte(allow_role_switch));
        assert(p@ =~= address.0@ + le16(packet_type) + seq![page_scan_rep_mode, 0u8] + le16(clock_offset)
            + seq![flag_byte(allow_role_switch)]);
        Self::new(HCI_OP_CREATE_CONN, p)
    }

    /// Create LE connection command
    pub fn le_create_connection(
        scan_interval: u16,
        scan_window: u16,
        filter_policy: u8,
        peer_addr_type: u8,
        peer_addr: &BdAddr,
        own_addr_type: u8,
        conn_interval_min: u16,
        conn_interval_max: u16,
        conn_latency: u16,
        supervision_timeout: u16,
        min_ce_len: u16,
        max_ce_len: u16,
    ) -> (r: Self)
        ensures
            r.opcode == HCI_OP_LE_CREATE_CONN,
            r.params@ == le16(scan_interval) + le16(scan_window) + seq![filter_policy, peer_addr_type]
                + peer_addr.0@ + seq![own_addr_type] + le16(conn_interval_min) + le16(conn_interval_max)
                + le16(conn_latency) + le16(supervision_timeout) + le16(min_ce_len) + le16(max_ce_len),
    {
        let mut p: Vec<u8> = Vec::new();
        push_u16_le(&mut p, scan_interval);
        push_u16_le(&mut p, scan_window);
        p.push(filter_policy);
        p.push(peer_addr_type);
        push_addr(&mut p, peer_addr);
        p.push(own_addr_type);
        push_u16_le(&mut p, conn_interval_min);
        push_u16_le(&mut p, conn_interval_max);
        push_u16_le(&mut p, conn_latency);
        push_u16_le(&mut p, supervision_timeout);
        push_u16_le(&mut p, min_ce_len);
        push_u16_le(&mut p, max_ce_len);
        assert(p@ =~= le16(scan_interval) + le16(scan_window) + seq![filter_policy, peer_addr_type]
            + peer_addr.0@ + seq![own_addr_type] + le16(conn_interval_min) + le16(conn_interval_max)
            + le16(conn_latency) + le16(supervision_timeout) + le16(min_ce_len) + le16(max_ce_len));
        Self::new(HCI_OP_LE_CREATE_CONN, p)
    }

    /// Serialize to bytes: opcode, parameter length (mod 256), parameters
    pub fn to_bytes(&self) -> (r: Vec<u8>)
        ensures
            r@ == command_bytes(self.opcode, self.params@),
    {
        let mut bytes: Vec<u8> = Vec::new();
        push_u16_le(&mut bytes, self.opcode);
        let n = self.params.len();
        bytes.push((n % 256) as u8);
        crate::wire::extend_bytes(&mut bytes, self.params.as_slice());
        assert(bytes@ =~= command_bytes(self.opcode, self.params@));
        bytes
    }
}

/// HCI event packet
#[derive(Clone, Debug)]
pub struct HciEvent {
    /// Event code
    pub code: u8,
    /// Parameters
    pub params: Vec<u8>,
}

/// Whether `data` holds a whole event: code, length, then that many bytes.
pub open spec fn event_fits(data: Seq<u8>) -> bool {
    data.len() >= 2 && data.len() >= 2 + data[1]
}

/// The parameters of the event at the front of `data`.
pub open spec fn event_params(data: Seq<u8>) -> Seq<u8> {
    data.subrange(2, 2 + data[1] as int)
}

/// The event that a code byte names, for the events this host handles.
pub open spec fn event_code_of(code: u8) -> Option<HciEventCode> {
    if code == 0x01 { Some(HciEventCode::InquiryComplete) }
    else if code == 0x02 { Some(HciEventCode::InquiryResult) }
    else if code == 0x03 { Some(HciEventCode::ConnectionComplete) }
    else if code == 0x04 { Some(HciEventCode::ConnectionRequest) }
    else if code == 0x05 { Some(HciEventCode::DisconnectionComplete) }
    else if code == 0x0E { Some(HciEventCode::CommandComplete) }
    else if code == 0x0F { Some(HciEventCode::CommandStatus) }
    else if code == 0x3E { Some(HciEventCode::LeMeta) }
    else { None }
}

impl HciEvent {
    /// Parse from bytes
    pub fn from_bytes(data: &[u8]) -> (r: Option<Self>)
        ensures
            r.is_some() <==> event_fits(data@),
            r matches Some(e) ==> e.code == data@[0] && e.params@ == event_params(data@),
    {
        if data.len() < 2 {
            return None;
        }
        let code = data[0];
        let len = data[1] as usize;
        if data.len() < 2 + len {
            return None;
        }
        Some(HciEvent { code, params: crate::wire::copy_range(data, 2, 2 + len) })
    }

    /// Get event code
    pub fn event_code(&self) -> (r: Option<HciEventCode>)
        ensures
            r == event_code_of(self.code),
    {
        match self.code {
            0x01 => Some(HciEventCode::InquiryComplete),
            0x02 => Some(HciEventCode::InquiryResult),
            0x03 => Some(HciEventCode::ConnectionComplete),
            0x04 => Some(HciEventCode::ConnectionRequest),
            0x05 => Some(HciEventCode::DisconnectionComplete),
            0x0E => Some(HciEventCode::CommandComplete),
            0x0F => Some(HciEventCode::CommandStatus),
            0x3E => Some(HciEventCode::LeMeta),
            _ => None,
        }
    }

    /// Check if this is command complete for given opcode
    pub fn is_command_complete(&self, opcode: u16) -> (r: bool)
        ensures
            r == (self.code == 0x0E && self.params@.len() >= 3
                && from_le16(self.params@[1], self.params@[2]) == opcode),
    {
        if self.code != 0x0E {
            return false;
        }
        if self.params.len() < 3 {
            return false;
        }
        let event_opcode = crate::wire::make_u16(self.params[1], self.params[2]);
        event_opcode == opcode
    }

    /// Get status from command complete event
    pub fn command_complete_status(&self) -> (r: Option<HciStatus>)
        ensures
            r == (if self.code == 0x0E && self.params@.len() >= 4 {
                Some(status_from_byte(self.params@[3]))
            } else {
                None::<HciStatus>
            }),
    {
        if self.code != 0x0E {
            return None;
        }
        if self.params.len() < 4 {
            return None;
        }
        Some(HciStatus::from(self.params[3]))
    }
}

/// ACL packet boundary flag
#[derive(Clone, Copy, Debug, PartialEq, Eq, Structural)]
pub enum AclPacketBoundary {
    /// First non-automatically flushable packet
    FirstNonFlushable,
    /// Continuing fragment
    Continuing,
    /// First automatically flushable packet
    FirstAutoFlush,
    /// Complete L2CAP PDU
    Complete,
}

impl AclPacketBoundary {
    /// The two-bit code of the flag.
    pub open spec fn code(self) -> u8 {
        match self {
            AclPacketBoundary::FirstNonFlushable => 0,
            AclPacketBoundary::Continuing => 1,
            AclPacketBoundary::FirstAutoFlush => 2,
            AclPacketBoundary::Complete => 3,
        }
    }

    /// The flag a two-bit code names.
    pub open spec fn of_code(c: int) -> AclPacketBoundary {
        if c == 0 { AclPacketBoundary::FirstNonFlushable }
        else if c == 1 { AclPacketBoundary::Continuing }
        else if c == 2 { AclPacketBoundary::FirstAutoFlush }
        else { AclPacketBoundary::Complete }
    }

    /// The two-bit code of the flag.
    pub fn to_u8(&self) -> (r: u8)
        ensures
            r == self.code(),
    {
        match self {
            AclPacketBoundary::FirstNonFlushable => 0,
            AclPacketBoundary::Continuing => 1,
            AclPacketBoundary::FirstAutoFlush => 2,
            AclPacketBoundary::Complete => 3,
        }
    }
}

/// ACL data packet
#[derive(Clone, Debug)]
pub struct AclPacket {
    /// Connection handle
    pub handle: u16,
    /// Packet boundary flag
    pub pb_flag: AclPacketBoundary,
    /// Broadcast flag
    pub bc_flag: u8,
    /// Data
    pub data: Vec<u8>,
}

/// The 16-bit ACL header word: handle in bits 0..12, boundary flag in
/// bits 12..14, broadcast flag in bits 14..16 (bits that do not fit are lost).
pub open spec fn acl_header(handle: u16, pb: u8, bc: u8) -> u16 {
    handle | ((pb as u16) << 12u16) | ((bc as u16) << 14u16)
}

/// The wire form of an ACL packet.
pub open spec fn acl_bytes(handle: u16, pb: u8, bc: u8, data: Seq<u8>) -> Seq<u8> {
    le16(acl_header(handle, pb, bc)) + le16((data.len() % 65536) as u16) + data
}

/// Whether `data` holds a whole ACL packet.
pub open spec fn acl_fits(data: Seq<u8>) -> bool {
    data.len() >= 4 && data.len() >= 4 + from_le16(data[2], data[3])
}

/// The parsed fields (handle, boundary code, broadcast flag, payload) of the
/// ACL packet at the front of `data`.
pub open spec fn acl_fields(data: Seq<u8>) -> (u16, u8, u8, Seq<u8>) {
    let hdr = from_le16(data[0], data[1]);
    (
        (hdr % 4096) as u16,
        ((hdr / 4096) % 4) as u8,
        (hdr / 16384) as u8,
        data.subrange(4, 4 + from_le16(data[2], data[3]) as int),
    )
}

impl AclPacket {
    /// Create new ACL packet
    pub fn new(handle: u16, pb_flag: AclPacketBoundary, data: Vec<u8>) -> (r: Self)
        ensures
            r.handle == handle,
            r.pb_flag == pb_flag,
            r.bc_flag == 0,
            r.data@ == data@,
    {
        AclPacket { handle, pb_flag, bc_flag: 0, data }
    }

    /// Parse from bytes
    pub fn from_bytes(data: &[u8]) -> (r: Option<Self>)
        ensures
            r.is_some() <==> acl_fits(data@),
            r matches Some(p) ==> (p.handle, p.pb_flag.code(), p.bc_flag, p.data@) == acl_fields(data@),
    {
        if data.len() < 4 {
            return None;
        }
        let hdr = crate::wire::make_u16(data[0], data[1]);
        let len = crate::wire::make_u16(data[2], data[3]) as usize;
        if data.len() < 4 + len {
            return None;
        }
        assert((hdr & 0x0FFF) == hdr % 4096 && ((hdr >> 12) & 0x03) == (hdr / 4096) % 4
            && ((hdr >> 14) & 0x03) == hdr / 16384) by (bit_vector);
        let handle = hdr & 0x0FFF;
        let pb_flag = match (hdr >> 12) & 0x03 {
            0x00 => AclPacketBoundary::FirstNonFlushable,
            0x01 => AclPacketBoundary::Continuing,
            0x02 => AclPacketBoundary::FirstAutoFlush,
            _ => AclPacketBoundary::Complete,
        };
        let bc_flag = ((hdr >> 14) & 0x03) as u8;
        Some(AclPacket { handle, pb_flag, bc_flag, data: crate::wire::copy_range(data, 4, 4 + len) })
    }

    /// Serialize to bytes
    pub fn to_bytes(&self) -> (r: Vec<u8>)
        ensures
            r@ == acl_bytes(self.handle, self.pb_flag.code(), self.bc_flag, self.data@),
    {
        let pb = self.pb_flag.to_u8();
        let hdr = self.handle | ((pb as u16) << 12) | ((self.bc_flag as u16) << 14);
        let n = self.data.len();
        let len = (n % 65536) as u16;
        let mut bytes: Vec<u8> = Vec::new();
        push_u16_le(&mut bytes, hdr);
        push_u16_le(&mut bytes, len);
        crate::wire::extend_bytes(&mut bytes, self.data.as_slice());
        assert(bytes@ =~= acl_bytes(self.handle, self.pb_flag.code(), self.bc_flag, self.data@));
        bytes
    }
}

/// An ACL packet whose handle fits in 12 bits, whose broadcast flag fits in
/// two bits and whose payload is shorter than 64 KiB parses back from its
/// serialized form unchanged.
pub proof fn lemma_acl_roundtrip(handle: u16, pb: AclPacketBoundary, bc: u8, data: Seq<u8>)
    requires
        handle < 4096,
        bc < 4,
        data.len() < 65536,
    ensures
        acl_fits(acl_bytes(handle, pb.code(), bc, data)),
        acl_fields(acl_bytes(handle, pb.code(), bc, data)) == (handle, pb.code(), bc, data),
{
    let b = acl_bytes(handle, pb.code(), bc, data);
    let p = pb.code();
    let hdr = acl_header(handle, p, bc);
    assert(p < 4);
    crate::wire::lemma_le16_roundtrip(hdr);
    crate::wire::lemma_le16_roundtrip((data.len() % 65536) as u16);
    assert(b[0] == le16(hdr)[0] && b[1] == le16(hdr)[1]);
    assert(b[2] == le16((data.len() % 65536) as u16)[0] && b[3] == le16((data.len() % 65536) as u16)[1]);
    assert(from_le16(b[2], b[3]) == data.len());
    assert(from_le16(b[0], b[1]) == hdr);
    assert(hdr % 4096 == handle && (hdr / 4096) % 4 == p && hdr / 16384 == bc) by (bit_vector)
        requires
            hdr == handle | ((p as u16) << 12u16) | ((bc as u16) << 14u16),
            handle < 4096,
            p < 4,
            bc < 4,
    ;
    assert(b.subrange(4, 4 + data.len() as int) =~= data);
}

/// HCI transport type
#[derive(Clone, Copy, Debug, PartialEq, Eq, Structural)]
pub enum HciTransport {
    /// USB transport
    Usb,
    /// UART transport (H4)
    Uart,
    /// SDIO transport
    Sdio,
    /// PCI/PCIe transport
    Pci,
    /// Virtual (testing)
    Virtual,
}

/// HCI controller state
#[derive(Clone, Copy, Debug, PartialEq, Eq, Structural)]
pub enum HciState {
    /// Not initialized
    Off,
    /// Initializing
    Initializing,
    /// Running
    Running,
    /// Error state
    Error,
    /// Closing
    Closing,
}

/// HCI features bitmap
#[derive(Clone, Copy, Debug)]
pub struct HciFeatures {
    /// Raw features bytes
    pub raw: [u8; 8],
}

/// LE features bitmap
#[derive(Clone, Copy, Debug)]
pub struct LeFeatures {
    /// Raw features bytes
    pub raw: [u8; 8],
}
impl HciFeatures {
    /// Check if feature is supported: bit `bit` of byte `byte`
    pub fn has_feature(&self, byte: usize, bit: u8) -> (r: bool)
        requires
            bit < 8,
        ensures
            r == (byte < 8 && bit_set(self.raw@[byte as int], bit)),
    {
        if byte >= 8 {
            return false;
        }
        test_bit(self.raw[byte], bit)
    }

    /// 3-slot packets
    pub fn has_3_slot_packets(&self) -> (r: bool)
        ensures
            r == bit_set(self.raw@[0], 0),
    {
        self.has_feature(0, 0)
    }

    /// 5-slot packets
    pub fn has_5_slot_packets(&self) -> (r: bool)
        ensures
            r == bit_set(self.raw@[0], 1),
    {
        self.has_feature(0, 1)
    }

    /// Encryption
    pub fn has_encryption(&self) -> (r: bool)
        ensures
            r == bit_set(self.raw@[0], 2),
    {
        self.has_feature(0, 2)
    }

    /// Slot offset
    pub fn has_slot_offset(&self) -> (r: bool)
        ensures
            r == bit_set(self.raw@[0], 3),
    {
        self.has_feature(0, 3)
    }

    /// Timing accuracy
    pub fn has_timing_accuracy(&self) -> (r: bool)
        ensures
            r == bit_set(self.raw@[0], 4),
    {
        self.has_feature(0, 4)
    }

    /// Role switch
    pub fn has_role_switch(&self) -> (r: bool)
        ensures
            r == bit_set(self.raw@[0], 5),
    {
        self.has_feature(0, 5)
    }

    /// Hold mode
    pub fn has_hold_mode(&self) -> (r: bool)
        ensures
            r == bit_set(self.raw@[0], 6),
    {
        self.has_feature(0, 6)
    }

    /// Sniff mode
    pub fn has_sniff_mode(&self) -> (r: bool)
        ensures
            r == bit_set(self.raw@[0], 7),
    {
        self.has_feature(0, 7)
    }

    /// eSCO
    pub fn has_esco(&self) -> (r: bool)
        ensures
            r == bit_set(self.raw@[3], 7),
    {
        self.has_feature(3, 7)
    }

    /// EV4 packets
    pub fn has_ev4(&self) -> (r: bool)
        ensures
            r == bit_set(self.raw@[4], 0),
    {
        self.has_feature(4, 0)
    }

    /// EV5 packets
    pub fn has_ev5(&self) -> (r: bool)
        ensures
            r == bit_set(self.raw@[4], 1),
    {
        self.has_feature(4, 1)
    }

    /// AFH capable slave
    pub fn has_afh_capable_slave(&self) -> (r: bool)
        ensures
            r == bit_set(self.raw@[4], 3),
    {
        self.has_feature(4, 3)
    }

    /// AFH classification slave
    pub fn has_afh_class_slave(&self) -> (r: bool)
        ensures
            r == bit_set(self.raw@[4], 4),
    {
        self.has_feature(4, 4)
    }

    /// BR/EDR not supported
    pub fn br_edr_not_supported(&self) -> (r: bool)
        ensures
            r == bit_set(self.raw@[4], 5),
    {
        self.has_feature(4, 5)
    }

    /// LE supported (controller)
    pub fn has_le_supported(&self) -> (r: bool)
        ensures
            r == bit_set(self.raw@[4], 6),
    {
        self.has_feature(4, 6)
    }

    /// 3-slot EDR ACL packets
    pub fn has_3_slot_edr_acl(&self) -> (r: bool)
        ensures
            r == bit_set(self.raw@[4], 7),
    {
        self.has_feature(4, 7)
    }

    /// 5-slot EDR ACL packets
    pub fn has_5_slot_edr_acl(&self) -> (r: bool)
        ensures
            r == bit_set(self.raw@[5], 0),
    {
        self.has_feature(5, 0)
    }

    /// Sniff subrating
    pub fn has_sniff_subrating(&self) -> (r: bool)
        ensures
            r == bit_set(self.raw@[5], 1),
    {
        self.has_feature(5, 1)
    }

    /// Pause encryption
    pub fn has_pause_encryption(&self) -> (r: bool)
        ensures
            r == bit_set(self.raw@[5], 2),
    {
        self.has_feature(5, 2)
    }

    /// AFH capable master
    pub fn has_afh_capable_master(&self) -> (r: bool)
        ensures
            r == bit_set(self.raw@[5], 3),
    {
        self.has_feature(5, 3)
    }

    /// AFH classification master
    pub fn has_afh_class_master(&self) -> (r: bool)
        ensures
            r == bit_set(self.raw@[5], 4),
    {
        self.has_feature(5, 4)
    }

    /// EDR eSCO 2M
    pub fn has_edr_esco_2m(&self) -> (r: bool)
        ensures
            r == bit_set(self.raw@[5], 5),
    {
        self.has_feature(5, 5)
    }

    /// EDR eSCO 3M
    pub fn has_edr_esco_3m(&self) -> (r: bool)
        ensures
            r == bit_set(self.raw@[5], 6),
    {
        self.has_feature(5, 6)
    }

    /// 3-slot EDR eSCO
    pub fn has_3_slot_edr_esco(&self) -> (r: bool)
        ensures
            r == bit_set(self.raw@[5], 7),
    {
        self.has_feature(5, 7)
    }

    /// Extended inquiry response
    pub fn has_eir(&self) -> (r: bool)
        ensures
            r == bit_set(self.raw@[6], 0),
    {
        self.has_feature(6, 0)
    }

    /// Simultaneous LE and BR/EDR
    pub fn has_le_bredr_same_time(&self) -> (r: bool)
        ensures
            r == bit_set(self.raw@[6], 1),
    {
        self.has_feature(6, 1)
    }

    /// Secure simple pairing
    pub fn has_ssp(&self) -> (r: bool)
        ensures
            r == bit_set(self.raw@[6], 3),
    {
        self.has_feature(6, 3)
    }

    /// Encapsulated PDU
    pub fn has_encapsulated_pdu(&self) -> (r: bool)
        ensures
            r == bit_set(self.raw@[6], 4),
    {
        self.has_feature(6, 4)
    }

    /// Erroneous data reporting
    pub fn has_erroneous_data_reporting(&self) -> (r: bool)
        ensures
            r == bit_set(self.raw@[6], 5),
    {
        self.has_feature(6, 5)
    }

    /// Non-flushable packet boundary flag
    pub fn has_non_flushable_pb(&self) -> (r: bool)
        ensures
            r == bit_set(self.raw@[6], 6),
    {
        self.has_feature(6, 6)
    }

    /// Link supervision timeout changed event
    pub fn has_link_supervision_timeout_changed(&self) -> (r: bool)
        ensures
            r == bit_set(self.raw@[7], 0),
    {
        self.has_feature(7, 0)
    }

    /// Inquiry TX power level
    pub fn has_inq_tx_power(&self) -> (r: bool)
        ensures
            r == bit_set(self.raw@[7], 1),
    {
        self.has_feature(7, 1)
    }

    /// Enhanced power control
    pub fn has_enhanced_power_control(&self) -> (r: bool)
        ensures
            r == bit_set(self.raw@[7], 2),
    {
        self.has_feature(7, 2)
    }

    /// Extended features
    pub fn has_extended_features(&self) -> (r: bool)
        ensures
            r == bit_set(self.raw@[7], 7),
    {
        self.has_feature(7, 7)
    }

}

impl LeFeatures {
    /// Check if LE feature `bit` is supported (bit `bit % 8` of byte `bit / 8`)
    pub fn has_feature(&self, bit: u8) -> (r: bool)
        ensures
            r == (bit / 8 < 8 && bit_set(self.raw@[(bit / 8) as int], bit % 8)),
    {
        let byte = (bit / 8) as usize;
        let b = bit % 8;
        if byte >= 8 {
            return false;
        }
        test_bit(self.raw[byte], b)
    }

    /// LE encryption
    pub fn has_encryption(&self) -> (r: bool)
        ensures
            r == bit_set(self.raw@[0], 0),
    {
        self.has_feature(0)
    }

    /// Connection parameters request procedure
    pub fn has_conn_param_req(&self) -> (r: bool)
        ensures
            r == bit_set(self.raw@[0], 1),
    {
        self.has_feature(1)
    }

    /// Extended reject indication
    pub fn has_ext_reject(&self) -> (r: bool)
        ensures
            r == bit_set(self.raw@[0], 2),
    {
        self.has_feature(2)
    }

    /// Slave-initiated features exchange
    pub fn has_slave_feat_exchange(&self) -> (r: bool)
        ensures
            r == bit_set(self.raw@[0], 3),
    {
        self.has_feature(3)
    }

    /// LE ping
    pub fn has_ping(&self) -> (r: bool)
        ensures
            r == bit_set(self.raw@[0], 4),
    {
        self.has_feature(4)
    }

    /// LE data packet length extension
    pub fn has_data_len_ext(&self) -> (r: bool)
        ensures
            r == bit_set(self.raw@[0], 5),
    {
        self.has_feature(5)
    }

    /// LL privacy
    pub fn has_privacy(&self) -> (r: bool)
        ensures
            r == bit_set(self.raw@[0], 6),
    {
        self.has_feature(6)
    }

    /// Extended scanner filter policies
    pub fn has_ext_scan_filter(&self) -> (r: bool)
        ensures
            r == bit_set(self.raw@[0], 7),
    {
        self.has_feature(7)
    }

    /// LE 2M PHY
    pub fn has_2m_phy(&self) -> (r: bool)
        ensures
            r == bit_set(self.raw@[1], 0),
    {
        self.has_feature(8)
    }

    /// Stable modulation index (TX)
    pub fn has_stable_mod_idx_tx(&self) -> (r: bool)
        ensures
            r == bit_set(self.raw@[1], 1),
    {
        self.has_feature(9)
    }

    /// Stable modulation index (RX)
    pub fn has_stable_mod_idx_rx(&self) -> (r: bool)
        ensures
            r == bit_set(self.raw@[1], 2),
    {
        self.has_feature(10)
    }

    /// LE coded PHY
    pub fn has_coded_phy(&self) -> (r: bool)
        ensures
            r == bit_set(self.raw@[1], 3),
    {
        self.has_feature(11)
    }

    /// LE extended advertising
    pub fn has_ext_adv(&self) -> (r: bool)
        ensures
            r == bit_set(self.raw@[1], 4),
    {
        self.has_feature(12)
    }

    /// LE periodic advertising
    pub fn has_periodic_adv(&self) -> (r: bool)
        ensures
            r == bit_set(self.raw@[1], 5),
    {
        self.has_feature(13)
    }

    /// Channel selection algorithm #2
    pub fn has_chan_sel_alg_2(&self) -> (r: bool)
        ensures
            r == bit_set(self.raw@[1], 6),
    {
        self.has_feature(14)
    }

    /// LE power class 1
    pub fn has_power_class_1(&self) -> (r: bool)
        ensures
            r == bit_set(self.raw@[1], 7),
    {
        self.has_feature(15)
    }

    /// Minimum number of used channels procedure
    pub fn has_min_used_channels(&self) -> (r: bool)
        ensures
            r == bit_set(self.raw@[2], 0),
    {
        self.has_feature(16)
    }

}

/// HCI local version information
#[derive(Clone, Copy, Debug, Default)]
pub struct HciVersion {
    pub hci_version: u8,
    pub hci_revision: u16,
    pub lmp_version: u8,
    pub manufacturer: u16,
    pub lmp_subversion: u16,
}

/// HCI buffer information
#[derive(Clone, Copy, Debug, Default)]
pub struct HciBufferInfo {
    pub acl_mtu: u16,
    pub sco_mtu: u8,
    pub acl_pkts: u16,
    pub sco_pkts: u16,
    pub le_mtu: u16,
    pub le_pkts: u8,
}

/// Link type
#[derive(Clone, Copy, Debug, PartialEq, Eq, Structural)]
pub enum LinkType {
    /// SCO connection
    Sco,
    /// ACL connection
    Acl,
    /// eSCO connection
    Esco,
    /// LE connection
    Le,
}

/// Connection role
#[derive(Clone, Copy, Debug, PartialEq, Eq, Structural)]
pub enum ConnectionRole {
    /// Master/central role
    Master,
    /// Slave/peripheral role
    Slave,
}

/// Connection state
#[derive(Clone, Copy, Debug, PartialEq, Eq, Structural)]
pub enum ConnectionState {
    Connecting,
    Connected,
    Disconnecting,
    Disconnected,
}

/// HCI connection
#[derive(Clone, Copy, Debug)]
pub struct HciConnection {
    /// Connection handle
    pub handle: u16,
    /// Remote address
    pub address: BdAddr,
    /// Link type
    pub link_type: LinkType,
    /// Is encrypted
    pub encrypted: bool,
    /// Role
    pub role: ConnectionRole,
    /// State
    pub state: ConnectionState,
}

/// USB HCI transport
pub struct HciUsb {
    /// Vendor ID
    pub vendor_id: u16,
    /// Product ID
    pub product_id: u16,
    /// USB device handle
    pub device_handle: Option<usize>,
    /// Bulk IN endpoint
    pub bulk_in: u8,
    /// Bulk OUT endpoint
    pub bulk_out: u8,
    /// Interrupt endpoint
    pub interrupt: u8,
}

impl HciUsb {
    /// Create new USB transport, closed, on the standard endpoints
    pub fn new(vendor_id: u16, product_id: u16) -> (r: Self)
        ensures
            r.vendor_id == vendor_id,
            r.product_id == product_id,
            r.device_handle.is_none(),
            r.bulk_in == 0x81 && r.bulk_out == 0x02 && r.interrupt == 0x83,
    {
        HciUsb { vendor_id, product_id, device_handle: None, bulk_in: 0x81, bulk_out: 0x02, interrupt: 0x83 }
    }

    /// Open USB device
    pub fn open(&mut self) -> (r: Result<(), BluetoothError>)
        ensures
            r.is_ok(),
            final(self).device_handle == Some(0usize),
            final(self).vendor_id == old(self).vendor_id,
            final(self).product_id == old(self).product_id,
            final(self).bulk_in == old(self).bulk_in,
            final(self).bulk_out == old(self).bulk_out,
            final(self).interrupt == old(self).interrupt,
    {
        self.device_handle = Some(0);
        Ok(())
    }

    /// Close USB device
    pub fn close(&mut self)
        ensures
            final(self).device_handle.is_none(),
            final(self).vendor_id == old(self).vendor_id,
            final(self).product_id == old(self).product_id,
            final(self).bulk_in == old(self).bulk_in,
            final(self).bulk_out == old(self).bulk_out,
            final(self).interrupt == old(self).interrupt,
    {
        self.device_handle = None;
    }

    /// Send command: refused while the device is closed
    pub fn send_command(&self, cmd: &HciCommand) -> (r: Result<(), BluetoothError>)
        ensures
            r == (if self.device_handle.is_none() {
                Err::<(), BluetoothError>(BluetoothError::NotConnected)
            } else {
                Ok(())
            }),
    {
        if self.device_handle.is_none() {
            return Err(BluetoothError::NotConnected);
        }
        let _bytes = cmd.to_bytes();
        Ok(())
    }

    /// Send ACL data: refused while the device is closed
    pub fn send_acl(&self, packet: &AclPacket) -> (r: Result<(), BluetoothError>)
        ensures
            r == (if self.device_handle.is_none() {
                Err::<(), BluetoothError>(BluetoothError::NotConnected)
            } else {
                Ok(())
            }),
    {
        if self.device_handle.is_none() {
            return Err(BluetoothError::NotConnected);
        }
        let _bytes = packet.to_bytes();
        Ok(())
    }

    /// Receive event: nothing ever arrives on this transport
    pub fn recv_event(&self) -> (r: Result<HciEvent, BluetoothError>)
        ensures
            r matches Err(e) && e == (if self.device_handle.is_none() {
                BluetoothError::NotConnected
            } else {
                BluetoothError::Timeout
            }),
    {
        if self.device_handle.is_none() {
            return Err(BluetoothError::NotConnected);
        }
        Err(BluetoothError::Timeout)
    }

    /// Receive ACL data: nothing ever arrives on this transport
    pub fn recv_acl(&self) -> (r: Result<AclPacket, BluetoothError>)
        ensures
            r matches Err(e) && e == (if self.device_handle.is_none() {
                BluetoothError::NotConnected
            } else {
                BluetoothError::Timeout
            }),
    {
        if self.device_handle.is_none() {
            return Err(BluetoothError::NotConnected);
        }
        Err(BluetoothError::Timeout)
    }
}


/// UART (H4) HCI transport; received bytes wait in `rx_buffer`
pub struct HciUart {
    /// UART port number
    pub port: u8,
    /// Baud rate
    pub baud_rate: u32,
    /// Is open
    pub open: bool,
    /// RX buffer
    pub rx_buffer: VecDeque<u8>,
}

impl HciUart {
    /// Create new UART transport, closed, with nothing received
    pub fn new(port: u8, baud_rate: u32) -> (r: Self)
        ensures
            r.port == port,
            r.baud_rate == baud_rate,
            !r.open,
            r.rx_buffer@ == Seq::<u8>::empty(),
    {
        HciUart { port, baud_rate, open: false, rx_buffer: VecDeque::new() }
    }

    /// Open UART port
    pub fn open(&mut self) -> (r: Result<(), BluetoothError>)
        ensures
            r.is_ok(),
            final(self).open,
            final(self).port == old(self).port,
            final(self).baud_rate == old(self).baud_rate,
            final(self).rx_buffer@ == old(self).rx_buffer@,
    {
        self.open = true;
        Ok(())
    }

    /// Close UART port
    pub fn close(&mut self)
        ensures
            !final(self).open,
            final(self).port == old(self).port,
            final(self).baud_rate == old(self).baud_rate,
            final(self).rx_buffer@ == old(self).rx_buffer@,
    {
        self.open = false;
    }

    /// Send packet with H4 header: refused while the port is closed
    pub fn send(&self, packet_type: HciPacketType, _data: &[u8]) -> (r: Result<(), BluetoothError>)
        ensures
            r == (if self.open {
                Ok::<(), BluetoothError>(())
            } else {
                Err(BluetoothError::NotConnected)
            }),
    {
        if !self.open {
            return Err(BluetoothError::NotConnected);
        }
        Ok(())
    }

    /// Receive packet: refused while the port is closed; otherwise nothing
    /// arrives before the wait ends
    pub fn recv(&self) -> (r: Result<(HciPacketType, Vec<u8>), BluetoothError>)
        ensures
            r matches Err(e) && e == (if self.open { BluetoothError::Timeout } else { BluetoothError::NotConnected }),
    {
        if !self.open {
            return Err(BluetoothError::NotConnected);
        }
        Err(BluetoothError::Timeout)
    }
}

} // verus!
