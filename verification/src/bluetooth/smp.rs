//! SMP (Security Manager Protocol): pairing parameters, key distribution
//! flags and the choice of pairing method.
use vstd::prelude::*;
use super::BdAddr;
use crate::wire::{bit_set, test_bit};

pub mod manager;

verus! {

pub const SMP_MTU: usize = 65;
pub const SMP_TIMEOUT_MS: u64 = 30000;

/// SMP command codes
#[derive(Clone, Copy, Debug, PartialEq, Eq, Structural)]
pub enum SmpCode {
    /// Pairing request
    PairingRequest,
    /// Pairing response
    PairingResponse,
    /// Pairing confirm
    PairingConfirm,
    /// Pairing random
    PairingRandom,
    /// Pairing failed
    PairingFailed,
    /// Encryption information
    EncryptionInformation,
    /// Central identification
    CentralIdentification,
    /// Identity information
    IdentityInformation,
    /// Identity address information
    IdentityAddressInformation,
    /// Signing information
    SigningInformation,
    /// Security request
    SecurityRequest,
    /// Pairing public key
    PairingPublicKey,
    /// Pairing DHKey check
    PairingDhKeyCheck,
    /// Pairing keypress notification
    PairingKeypressNotification,
}

impl SmpCode {
    /// The numeric code of this value on the wire.
    pub open spec fn code(self) -> u8 {
        match self {
            SmpCode::PairingRequest => 0x1,
            SmpCode::PairingResponse => 0x2,
            SmpCode::PairingConfirm => 0x3,
            SmpCode::PairingRandom => 0x4,
            SmpCode::PairingFailed => 0x5,
            SmpCode::EncryptionInformation => 0x6,
            SmpCode::CentralIdentification => 0x7,
            SmpCode::IdentityInformation => 0x8,
            SmpCode::IdentityAddressInformation => 0x9,
            SmpCode::SigningInformation => 0xa,
            SmpCode::SecurityRequest => 0xb,
            SmpCode::PairingPublicKey => 0xc,
            SmpCode::PairingDhKeyCheck => 0xd,
            SmpCode::PairingKeypressNotification => 0xe,
        }
    }

    /// The numeric code of this value on the wire.
    pub fn to_u8(&self) -> (r: u8)
        ensures
            r == self.code(),
    {
        match self {
            SmpCode::PairingRequest => 0x1,
            SmpCode::PairingResponse => 0x2,
            SmpCode::PairingConfirm => 0x3,
            SmpCode::PairingRandom => 0x4,
            SmpCode::PairingFailed => 0x5,
            SmpCode::EncryptionInformation => 0x6,
            SmpCode::CentralIdentification => 0x7,
            SmpCode::IdentityInformation => 0x8,
            SmpCode::IdentityAddressInformation => 0x9,
            SmpCode::SigningInformation => 0xa,
            SmpCode::SecurityRequest => 0xb,
            SmpCode::PairingPublicKey => 0xc,
            SmpCode::PairingDhKeyCheck => 0xd,
            SmpCode::PairingKeypressNotification => 0xe,
        }
    }

    /// The value whose code is `v`, if any.
    pub open spec fn decode(v: u8) -> Option<SmpCode> {
        if v == 0x1 { Some(SmpCode::PairingRequest) } else { if v == 0x2 { Some(SmpCode::PairingResponse) } else { if v == 0x3 { Some(SmpCode::PairingConfirm) } else { if v == 0x4 { Some(SmpCode::PairingRandom) } else { if v == 0x5 { Some(SmpCode::PairingFailed) } else { if v == 0x6 { Some(SmpCode::EncryptionInformation) } else { if v == 0x7 { Some(SmpCode::CentralIdentification) } else { if v == 0x8 { Some(SmpCode::IdentityInformation) } else { if v == 0x9 { Some(SmpCode::IdentityAddressInformation) } else { if v == 0xa { Some(SmpCode::SigningInformation) } else { if v == 0xb { Some(SmpCode::SecurityRequest) } else { if v == 0xc { Some(SmpCode::PairingPublicKey) } else { if v == 0xd { Some(SmpCode::PairingDhKeyCheck) } else { if v == 0xe { Some(SmpCode::PairingKeypressNotification) } else { None } } } } } } } } } } } } } }
    }

    /// The value whose code is `v`, if any.
    pub fn from_u8(v: u8) -> (r: Option<SmpCode>)
        ensures
            r == SmpCode::decode(v),
    {
        match v {
            0x1 => Some(SmpCode::PairingRequest),
            0x2 => Some(SmpCode::PairingResponse),
            0x3 => Some(SmpCode::PairingConfirm),
            0x4 => Some(SmpCode::PairingRandom),
            0x5 => Some(SmpCode::PairingFailed),
            0x6 => Some(SmpCode::EncryptionInformation),
            0x7 => Some(SmpCode::CentralIdentification),
            0x8 => Some(SmpCode::IdentityInformation),
            0x9 => Some(SmpCode::IdentityAddressInformation),
            0xa => Some(SmpCode::SigningInformation),
            0xb => Some(SmpCode::SecurityRequest),
            0xc => Some(SmpCode::PairingPublicKey),
            0xd => Some(SmpCode::PairingDhKeyCheck),
            0xe => Some(SmpCode::PairingKeypressNotification),
            _ => None,
        }
    }

    /// Decoding the code of a value gives the value back.
    pub proof fn lemma_code_roundtrip(self)
        ensures
            SmpCode::decode(self.code()) == Some(self),
    {
    }

}

/// SMP pairing failure reasons
#[derive(Clone, Copy, Debug, PartialEq, Eq, Structural)]
pub enum SmpError {
    /// Passkey entry failed
    PasskeyEntryFailed,
    /// OOB not available
    OobNotAvailable,
    /// Authentication requirements
    AuthenticationRequirements,
    /// Confirm value failed
    ConfirmValueFailed,
    /// Pairing not supported
    PairingNotSupported,
    /// Encryption key size
    EncryptionKeySize,
    /// Command not supported
    CommandNotSupported,
    /// Unspecified reason
    UnspecifiedReason,
    /// Repeated attempts
    RepeatedAttempts,
    /// Invalid parameters
    InvalidParameters,
    /// DHKey check failed
    DhKeyCheckFailed,
    /// Numeric comparison failed
    NumericComparisonFailed,
    /// BR/EDR pairing in progress
    BredrPairingInProgress,
    /// Cross-transport key derivation not allowed
    CrossTransportNotAllowed,
}

impl SmpError {
    /// The numeric code of this value on the wire.
    pub open spec fn code(self) -> u8 {
        match self {
            SmpError::PasskeyEntryFailed => 0x1,
            SmpError::OobNotAvailable => 0x2,
            SmpError::AuthenticationRequirements => 0x3,
            SmpError::ConfirmValueFailed => 0x4,
            SmpError::PairingNotSupported => 0x5,
            SmpError::EncryptionKeySize => 0x6,
            SmpError::CommandNotSupported => 0x7,
            SmpError::UnspecifiedReason => 0x8,
            SmpError::RepeatedAttempts => 0x9,
            SmpError::InvalidParameters => 0xa,
            SmpError::DhKeyCheckFailed => 0xb,
            SmpError::NumericComparisonFailed => 0xc,
            SmpError::BredrPairingInProgress => 0xd,
            SmpError::CrossTransportNotAllowed => 0xe,
        }
    }

    /// The numeric code of this value on the wire.
    pub fn to_u8(&self) -> (r: u8)
        ensures
            r == self.code(),
    {
        match self {
            SmpError::PasskeyEntryFailed => 0x1,
            SmpError::OobNotAvailable => 0x2,
            SmpError::AuthenticationRequirements => 0x3,
            SmpError::ConfirmValueFailed => 0x4,
            SmpError::PairingNotSupported => 0x5,
            SmpError::EncryptionKeySize => 0x6,
            SmpError::CommandNotSupported => 0x7,
            SmpError::UnspecifiedReason => 0x8,
            SmpError::RepeatedAttempts => 0x9,
            SmpError::InvalidParameters => 0xa,
            SmpError::DhKeyCheckFailed => 0xb,
            SmpError::NumericComparisonFailed => 0xc,
            SmpError::BredrPairingInProgress => 0xd,
            SmpError::CrossTransportNotAllowed => 0xe,
        }
    }

    /// The value whose code is `v`, if any.
    pub open spec fn decode(v: u8) -> Option<SmpError> {
        if v == 0x1 { Some(SmpError::PasskeyEntryFailed) } else { if v == 0x2 { Some(SmpError::OobNotAvailable) } else { if v == 0x3 { Some(SmpError::AuthenticationRequirements) } else { if v == 0x4 { Some(SmpError::ConfirmValueFailed) } else { if v == 0x5 { Some(SmpError::PairingNotSupported) } else { if v == 0x6 { Some(SmpError::EncryptionKeySize) } else { if v == 0x7 { Some(SmpError::CommandNotSupported) } else { if v == 0x8 { Some(SmpError::UnspecifiedReason) } else { if v == 0x9 { Some(SmpError::RepeatedAttempts) } else { if v == 0xa { Some(SmpError::InvalidParameters) } else { if v == 0xb { Some(SmpError::DhKeyCheckFailed) } else { if v == 0xc { Some(SmpError::NumericComparisonFailed) } else { if v == 0xd { Some(SmpError::BredrPairingInProgress) } else { if v == 0xe { Some(SmpError::CrossTransportNotAllowed) } else { None } } } } } } } } } } } } } }
    }

    /// The value whose code is `v`, if any.
    pub fn from_u8(v: u8) -> (r: Option<SmpError>)
        ensures
            r == SmpError::decode(v),
    {
        match v {
            0x1 => Some(SmpError::PasskeyEntryFailed),
            0x2 => Some(SmpError::OobNotAvailable),
            0x3 => Some(SmpError::AuthenticationRequirements),
            0x4 => Some(SmpError::ConfirmValueFailed),
            0x5 => Some(SmpError::PairingNotSupported),
            0x6 => Some(SmpError::EncryptionKeySize),
            0x7 => Some(SmpError::CommandNotSupported),
            0x8 => Some(SmpError::UnspecifiedReason),
            0x9 => Some(SmpError::RepeatedAttempts),
            0xa => Some(SmpError::InvalidParameters),
            0xb => Some(SmpError::DhKeyCheckFailed),
            0xc => Some(SmpError::NumericComparisonFailed),
            0xd => Some(SmpError::BredrPairingInProgress),
            0xe => Some(SmpError::CrossTransportNotAllowed),
            _ => None,
        }
    }

    /// Decoding the code of a value gives the value back.
    pub proof fn lemma_code_roundtrip(self)
        ensures
            SmpError::decode(self.code()) == Some(self),
    {
    }

}

/// IO capabilities
#[derive(Clone, Copy, Debug, PartialEq, Eq, Structural)]
pub enum IoCapability {
    /// Display only
    DisplayOnly,
    /// Display with yes/no
    DisplayYesNo,
    /// Keyboard only
    KeyboardOnly,
    /// No input, no output
    NoInputNoOutput,
    /// Keyboard with display
    KeyboardDisplay,
}

impl IoCapability {
    /// The numeric code of this value on the wire.
    pub open spec fn code(self) -> u8 {
        match self {
            IoCapability::DisplayOnly => 0x0,
            IoCapability::DisplayYesNo => 0x1,
            IoCapability::KeyboardOnly => 0x2,
            IoCapability::NoInputNoOutput => 0x3,
            IoCapability::KeyboardDisplay => 0x4,
        }
    }

    /// The numeric code of this value on the wire.
    pub fn to_u8(&self) -> (r: u8)
        ensures
            r == self.code(),
    {
        match self {
            IoCapability::DisplayOnly => 0x0,
            IoCapability::DisplayYesNo => 0x1,
            IoCapability::KeyboardOnly => 0x2,
            IoCapability::NoInputNoOutput => 0x3,
            IoCapability::KeyboardDisplay => 0x4,
        }
    }

}

/// Out-of-band data flag
#[derive(Clone, Copy, Debug, PartialEq, Eq, Structural)]
pub enum OobDataFlag {
    /// No OOB data
    NotPresent,
    /// OOB data from remote device present
    Present,
}

impl OobDataFlag {
    /// The numeric code of this value on the wire.
    pub open spec fn code(self) -> u8 {
        match self {
            OobDataFlag::NotPresent => 0x0,
            OobDataFlag::Present => 0x1,
        }
    }

    /// The numeric code of this value on the wire.
    pub fn to_u8(&self) -> (r: u8)
        ensures
            r == self.code(),
    {
        match self {
            OobDataFlag::NotPresent => 0x0,
            OobDataFlag::Present => 0x1,
        }
    }

}

/// Authentication requirements
#[derive(Clone, Copy, Debug, Default, PartialEq, Eq, Structural)]
pub struct AuthReq {
    /// Bonding flags
    pub bonding: bool,
    /// MITM protection
    pub mitm: bool,
    /// Secure connections
    pub sc: bool,
    /// Keypress notifications
    pub keypress: bool,
    /// CT2 (h7 function support)
    pub ct2: bool,
}

/// The byte of a set of authentication requirements: bonding bit 0, MITM
/// bit 2, SC bit 3, keypress bit 4, CT2 bit 5.
pub open spec fn auth_req_byte(a: AuthReq) -> u8 {
    ((if a.bonding { 1int } else { 0 }) + (if a.mitm { 4int } else { 0 }) + (if a.sc { 8int } else { 0 })
        + (if a.keypress { 16int } else { 0 }) + (if a.ct2 { 32int } else { 0 })) as u8
}

impl AuthReq {
    /// Decode: bonding is either of the two bonding-flag bits
    pub fn from_byte(byte: u8) -> (r: Self)
        ensures
            r.bonding == (bit_set(byte, 0) || bit_set(byte, 1)),
            r.mitm == bit_set(byte, 2),
            r.sc == bit_set(byte, 3),
            r.keypress == bit_set(byte, 4),
            r.ct2 == bit_set(byte, 5),
    {
        AuthReq {
            bonding: test_bit(byte, 0) || test_bit(byte, 1),
            mitm: test_bit(byte, 2),
            sc: test_bit(byte, 3),
            keypress: test_bit(byte, 4),
            ct2: test_bit(byte, 5),
        }
    }

    /// Encode
    pub fn to_byte(&self) -> (r: u8)
        ensures
            r == auth_req_byte(*self),
    {
        let mut byte: u8 = 0;
        if self.bonding {
            byte = byte + 0x01;
        }
        if self.mitm {
            byte = byte + 0x04;
        }
        if self.sc {
            byte = byte + 0x08;
        }
        if self.keypress {
            byte = byte + 0x10;
        }
        if self.ct2 {
            byte = byte + 0x20;
        }
        byte
    }
}

/// Decoding the byte of a set of authentication requirements gives them back.
pub proof fn lemma_auth_req_roundtrip(a: AuthReq)
    ensures
        (bit_set(auth_req_byte(a), 0) || bit_set(auth_req_byte(a), 1)) == a.bonding,
        bit_set(auth_req_byte(a), 2) == a.mitm,
        bit_set(auth_req_byte(a), 3) == a.sc,
        bit_set(auth_req_byte(a), 4) == a.keypress,
        bit_set(auth_req_byte(a), 5) == a.ct2,
{
    let b = auth_req_byte(a);
    let x0: u8 = if a.bonding { 1 } else { 0 };
    let x2: u8 = if a.mitm { 1 } else { 0 };
    let x3: u8 = if a.sc { 1 } else { 0 };
    let x4: u8 = if a.keypress { 1 } else { 0 };
    let x5: u8 = if a.ct2 { 1 } else { 0 };
    assert(b == x0 + 4 * x2 + 8 * x3 + 16 * x4 + 32 * x5);
    assert((((b >> 0u8) & 1u8 == 1u8) || ((b >> 1u8) & 1u8 == 1u8)) == (x0 == 1)
        && ((b >> 2u8) & 1u8 == 1u8) == (x2 == 1) && ((b >> 3u8) & 1u8 == 1u8) == (x3 == 1)
        && ((b >> 4u8) & 1u8 == 1u8) == (x4 == 1) && ((b >> 5u8) & 1u8 == 1u8) == (x5 == 1)) by (bit_vector)
        requires
            x0 < 2 && x2 < 2 && x3 < 2 && x4 < 2 && x5 < 2,
            b == x0 + 4 * x2 + 8 * x3 + 16 * x4 + 32 * x5,
    ;
}

/// Key distribution flags
#[derive(Clone, Copy, Debug, Default, PartialEq, Eq, Structural)]
pub struct KeyDist {
    /// Encryption key (LTK)
    pub enc_key: bool,
    /// Identity key (IRK)
    pub id_key: bool,
    /// Signing key (CSRK)
    pub sign_key: bool,
    /// Link key
    pub link_key: bool,
}

/// The byte of a set of key distribution flags: bits 0..4.
pub open spec fn key_dist_byte(k: KeyDist) -> u8 {
    ((if k.enc_key { 1int } else { 0 }) + (if k.id_key { 2int } else { 0 }) + (if k.sign_key { 4int } else { 0 })
        + (if k.link_key { 8int } else { 0 })) as u8
}

impl KeyDist {
    /// Decode
    pub fn from_byte(byte: u8) -> (r: Self)
        ensures
            r.enc_key == bit_set(byte, 0),
            r.id_key == bit_set(byte, 1),
            r.sign_key == bit_set(byte, 2),
            r.link_key == bit_set(byte, 3),
    {
        KeyDist {
            enc_key: test_bit(byte, 0),
            id_key: test_bit(byte, 1),
            sign_key: test_bit(byte, 2),
            link_key: test_bit(byte, 3),
        }
    }

    /// Encode
    pub fn to_byte(&self) -> (r: u8)
        ensures
            r == key_dist_byte(*self),
    {
        let mut byte: u8 = 0;
        if self.enc_key {
            byte = byte + 0x01;
        }
        if self.id_key {
            byte = byte + 0x02;
        }
        if self.sign_key {
            byte = byte + 0x04;
        }
        if self.link_key {
            byte = byte + 0x08;
        }
        byte
    }
}

/// Decoding the byte of a set of key distribution flags gives them back.
pub proof fn lemma_key_dist_roundtrip(k: KeyDist)
    ensures
        bit_set(key_dist_byte(k), 0) == k.enc_key,
        bit_set(key_dist_byte(k), 1) == k.id_key,
        bit_set(key_dist_byte(k), 2) == k.sign_key,
        bit_set(key_dist_byte(k), 3) == k.link_key,
{
    let b = key_dist_byte(k);
    let x0: u8 = if k.enc_key { 1 } else { 0 };
    let x1: u8 = if k.id_key { 1 } else { 0 };
    let x2: u8 = if k.sign_key { 1 } else { 0 };
    let x3: u8 = if k.link_key { 1 } else { 0 };
    assert(b == x0 + 2 * x1 + 4 * x2 + 8 * x3);
    assert(((b >> 0u8) & 1u8 == 1u8) == (x0 == 1) && ((b >> 1u8) & 1u8 == 1u8) == (x1 == 1)
        && ((b >> 2u8) & 1u8 == 1u8) == (x2 == 1) && ((b >> 3u8) & 1u8 == 1u8) == (x3 == 1)) by (bit_vector)
        requires
            x0 < 2 && x1 < 2 && x2 < 2 && x3 < 2,
            b == x0 + 2 * x1 + 4 * x2 + 8 * x3,
    ;
}

/// Pairing method
#[derive(Clone, Copy, Debug, PartialEq, Eq, Structural)]
pub enum PairingMethod {
    JustWorks,
    PasskeyEntry,
    NumericComparison,
    OutOfBand,
}

/// Pairing state
#[derive(Clone, Copy, Debug, PartialEq, Eq, Structural)]
pub enum PairingState {
    Idle,
    WaitPairingResponse,
    WaitPublicKey,
    WaitConfirm,
    WaitRandom,
    WaitDhKeyCheck,
    KeyDistribution,
    Complete,
    Failed,
}

/// Pairing request/response parameters
#[derive(Clone, Copy, Debug, PartialEq, Eq, Structural)]
pub struct PairingParams {
    pub io_capability: IoCapability,
    pub oob_data_flag: OobDataFlag,
    pub auth_req: AuthReq,
    pub max_key_size: u8,
    pub init_key_dist: KeyDist,
    pub resp_key_dist: KeyDist,
}

/// The IO capability a byte names; unknown values read as NoInputNoOutput.
pub open spec fn io_capability_of(b: u8) -> IoCapability {
    if b == 0 { IoCapability::DisplayOnly }
    else if b == 1 { IoCapability::DisplayYesNo }
    else if b == 2 { IoCapability::KeyboardOnly }
    else if b == 4 { IoCapability::KeyboardDisplay }
    else { IoCapability::NoInputNoOutput }
}

/// The parameters that six bytes of a pairing request or response carry.
pub open spec fn params_of(d: Seq<u8>) -> PairingParams {
    PairingParams {
        io_capability: io_capability_of(d[0]),
        oob_data_flag: if d[1] == 0 { OobDataFlag::NotPresent } else { OobDataFlag::Present },
        auth_req: AuthReq {
            bonding: bit_set(d[2], 0) || bit_set(d[2], 1),
            mitm: bit_set(d[2], 2),
            sc: bit_set(d[2], 3),
            keypress: bit_set(d[2], 4),
            ct2: bit_set(d[2], 5),
        },
        max_key_size: d[3],
        init_key_dist: KeyDist { enc_key: bit_set(d[4], 0), id_key: bit_set(d[4], 1), sign_key: bit_set(d[4], 2), link_key: bit_set(d[4], 3) },
        resp_key_dist: KeyDist { enc_key: bit_set(d[5], 0), id_key: bit_set(d[5], 1), sign_key: bit_set(d[5], 2), link_key: bit_set(d[5], 3) },
    }
}

/// The six parameter bytes of a pairing request or response.
pub open spec fn pairing_bytes(p: PairingParams) -> Seq<u8> {
    seq![p.io_capability.code(), p.oob_data_flag.code(), auth_req_byte(p.auth_req), p.max_key_size,
        key_dist_byte(p.init_key_dist), key_dist_byte(p.resp_key_dist)]
}

impl PairingParams {
    /// Parameters this host offers: no IO, bonding with secure connections,
    /// 16-byte keys, encryption and identity keys both ways
    pub fn default_params() -> (r: Self)
        ensures
            r.io_capability == IoCapability::NoInputNoOutput,
            r.oob_data_flag == OobDataFlag::NotPresent,
            r.auth_req == (AuthReq { bonding: true, mitm: false, sc: true, keypress: false, ct2: false }),
            r.max_key_size == 16,
            r.init_key_dist == (KeyDist { enc_key: true, id_key: true, sign_key: false, link_key: false }),
            r.resp_key_dist == (KeyDist { enc_key: true, id_key: true, sign_key: false, link_key: false }),
    {
        PairingParams {
            io_capability: IoCapability::NoInputNoOutput,
            oob_data_flag: OobDataFlag::NotPresent,
            auth_req: AuthReq { bonding: true, mitm: false, sc: true, keypress: false, ct2: false },
            max_key_size: 16,
            init_key_dist: KeyDist { enc_key: true, id_key: true, sign_key: false, link_key: false },
            resp_key_dist: KeyDist { enc_key: true, id_key: true, sign_key: false, link_key: false },
        }
    }

    /// Parse the six parameter bytes
    pub fn from_bytes(data: &[u8]) -> (r: Option<Self>)
        ensures
            r == if data@.len() >= 6 { Some(params_of(data@)) } else { None },
    {
        if data.len() < 6 {
            return None;
        }
        let io = match data[0] {
            0 => IoCapability::DisplayOnly,
            1 => IoCapability::DisplayYesNo,
            2 => IoCapability::KeyboardOnly,
            3 => IoCapability::NoInputNoOutput,
            4 => IoCapability::KeyboardDisplay,
            _ => IoCapability::NoInputNoOutput,
        };
        let oob = if data[1] == 0 { OobDataFlag::NotPresent } else { OobDataFlag::Present };
        let auth_req = AuthReq::from_byte(data[2]);
        let init_key_dist = KeyDist::from_byte(data[4]);
        let resp_key_dist = KeyDist::from_byte(data[5]);
        assert(io == io_capability_of(data@[0]));
        let p = PairingParams {
            io_capability: io,
            oob_data_flag: oob,
            auth_req,
            max_key_size: data[3],
            init_key_dist,
            resp_key_dist,
        };
        assert(p == params_of(data@));
        Some(p)
    }

    /// Serialize the six parameter bytes
    pub fn to_bytes(&self) -> (r: Vec<u8>)
        ensures
            r@ == pairing_bytes(*self),
    {
        let mut v: Vec<u8> = Vec::new();
        v.push(self.io_capability.to_u8());
        v.push(self.oob_data_flag.to_u8());
        v.push(self.auth_req.to_byte());
        v.push(self.max_key_size);
        v.push(self.init_key_dist.to_byte());
        v.push(self.resp_key_dist.to_byte());
        assert(v@ =~= pairing_bytes(*self));
        v
    }
}

/// Parsing the serialized parameters of a pairing request gives them back.
pub proof fn lemma_pairing_params_roundtrip(p: PairingParams)
    ensures
        io_capability_of(pairing_bytes(p)[0]) == p.io_capability,
        (if pairing_bytes(p)[1] == 0 { OobDataFlag::NotPresent } else { OobDataFlag::Present }) == p.oob_data_flag,
        (bit_set(pairing_bytes(p)[2], 0) || bit_set(pairing_bytes(p)[2], 1)) == p.auth_req.bonding,
        bit_set(pairing_bytes(p)[2], 2) == p.auth_req.mitm,
        bit_set(pairing_bytes(p)[2], 3) == p.auth_req.sc,
        bit_set(pairing_bytes(p)[2], 4) == p.auth_req.keypress,
        bit_set(pairing_bytes(p)[2], 5) == p.auth_req.ct2,
        pairing_bytes(p)[3] == p.max_key_size,
        bit_set(pairing_bytes(p)[4], 0) == p.init_key_dist.enc_key,
        bit_set(pairing_bytes(p)[4], 1) == p.init_key_dist.id_key,
        bit_set(pairing_bytes(p)[4], 2) == p.init_key_dist.sign_key,
        bit_set(pairing_bytes(p)[4], 3) == p.init_key_dist.link_key,
        bit_set(pairing_bytes(p)[5], 0) == p.resp_key_dist.enc_key,
        bit_set(pairing_bytes(p)[5], 1) == p.resp_key_dist.id_key,
        bit_set(pairing_bytes(p)[5], 2) == p.resp_key_dist.sign_key,
        bit_set(pairing_bytes(p)[5], 3) == p.resp_key_dist.link_key,
{
    lemma_auth_req_roundtrip(p.auth_req);
    lemma_key_dist_roundtrip(p.init_key_dist);
    lemma_key_dist_roundtrip(p.resp_key_dist);
}

/// Long Term Key
#[derive(Clone, Copy, Debug)]
pub struct Ltk {
    pub value: [u8; 16],
    pub ediv: u16,
    pub rand: u64,
    pub key_size: u8,
    pub authenticated: bool,
    pub secure_connections: bool,
}

impl Ltk {
    /// A full-size, unauthenticated legacy key
    pub fn new(value: [u8; 16], ediv: u16, rand: u64) -> (r: Self)
        ensures
            r.value == value && r.ediv == ediv && r.rand == rand,
            r.key_size == 16,
            !r.authenticated && !r.secure_connections,
    {
        Ltk { value, ediv, rand, key_size: 16, authenticated: false, secure_connections: false }
    }
}

/// Identity Resolving Key
#[derive(Clone, Copy, Debug)]
pub struct Irk {
    pub value: [u8; 16],
    pub identity_addr: BdAddr,
    pub addr_type: u8,
}

impl Irk {
    /// Create an identity resolving key
    pub fn new(value: [u8; 16], identity_addr: BdAddr, addr_type: u8) -> (r: Self)
        ensures
            r.value == value && r.identity_addr == identity_addr && r.addr_type == addr_type,
    {
        Irk { value, identity_addr, addr_type }
    }
}

/// Connection Signature Resolving Key
#[derive(Clone, Copy, Debug)]
pub struct Csrk {
    pub value: [u8; 16],
    pub sign_counter: u32,
    pub local: bool,
}

impl Csrk {
    /// A local signing key with its counter at zero
    pub fn new(value: [u8; 16]) -> (r: Self)
        ensures
            r.value == value && r.sign_counter == 0 && r.local,
    {
        Csrk { value, sign_counter: 0, local: true }
    }
}

/// Security keys for a device
#[derive(Clone, Copy, Debug, Default)]
pub struct SecurityKeys {
    pub ltk: Option<Ltk>,
    pub irk: Option<Irk>,
    pub csrk: Option<Csrk>,
    pub remote_ltk: Option<Ltk>,
    pub remote_irk: Option<Irk>,
    pub remote_csrk: Option<Csrk>,
}

/// The pairing method the IO capability table gives when MITM protection
/// is required.
pub open spec fn io_method(local: IoCapability, remote: IoCapability, sc: bool) -> PairingMethod {
    match (local, remote) {
        (IoCapability::NoInputNoOutput, _) => PairingMethod::JustWorks,
        (_, IoCapability::NoInputNoOutput) => PairingMethod::JustWorks,
        (IoCapability::DisplayOnly, IoCapability::DisplayOnly) => PairingMethod::JustWorks,
        (IoCapability::DisplayOnly, IoCapability::DisplayYesNo) => PairingMethod::JustWorks,
        (IoCapability::DisplayYesNo, IoCapability::DisplayOnly) => PairingMethod::JustWorks,
        (IoCapability::DisplayYesNo, IoCapability::DisplayYesNo) =>
            if sc { PairingMethod::NumericComparison } else { PairingMethod::JustWorks },
        (IoCapability::DisplayYesNo, IoCapability::KeyboardDisplay) =>
            if sc { PairingMethod::NumericComparison } else { PairingMethod::PasskeyEntry },
        (IoCapability::KeyboardDisplay, IoCapability::DisplayYesNo) =>
            if sc { PairingMethod::NumericComparison } else { PairingMethod::PasskeyEntry },
        (IoCapability::KeyboardDisplay, IoCapability::KeyboardDisplay) =>
            if sc { PairingMethod::NumericComparison } else { PairingMethod::PasskeyEntry },
        _ => PairingMethod::PasskeyEntry,
    }
}

/// The pairing method two devices agree on.
pub open spec fn pairing_method(local: PairingParams, remote: Option<PairingParams>) -> PairingMethod {
    match remote {
        None => PairingMethod::JustWorks,
        Some(r) => if local.oob_data_flag == OobDataFlag::Present || r.oob_data_flag == OobDataFlag::Present {
            PairingMethod::OutOfBand
        } else if !(local.auth_req.mitm || r.auth_req.mitm) {
            PairingMethod::JustWorks
        } else {
            io_method(local.io_capability, r.io_capability, local.auth_req.sc && r.auth_req.sc)
        },
    }
}

/// Both sides of a pairing pick the same method.
pub proof fn lemma_pairing_method_symmetric(a: PairingParams, b: PairingParams)
    ensures
        pairing_method(a, Some(b)) == pairing_method(b, Some(a)),
{
}

/// The 16-byte array holding `s`.
pub open spec fn arr16(s: Seq<u8>) -> [u8; 16] {
    choose|a: [u8; 16]| a@ == s
}

/// The 32-byte array holding `s`.
pub open spec fn arr32(s: Seq<u8>) -> [u8; 32] {
    choose|a: [u8; 32]| a@ == s
}

/// The 6-byte array holding `s`.
pub open spec fn arr6(s: Seq<u8>) -> [u8; 6] {
    choose|a: [u8; 6]| a@ == s
}

/// An array is the one that holds its bytes.
pub proof fn lemma_arr16(a: [u8; 16])
    ensures
        arr16(a@) == a,
{
    broadcast use vstd::array::group_array_axioms;
    assert(exists|x: [u8; 16]| #[trigger] x@ == a@) by {
        assert(a@ == a@);
    }
    let c = arr16(a@);
    assert(c =~= a);
}

/// An array is the one that holds its bytes.
pub proof fn lemma_arr32(a: [u8; 32])
    ensures
        arr32(a@) == a,
{
    broadcast use vstd::array::group_array_axioms;
    assert(exists|x: [u8; 32]| #[trigger] x@ == a@) by {
        assert(a@ == a@);
    }
    let c = arr32(a@);
    assert(c =~= a);
}

/// An array is the one that holds its bytes.
pub proof fn lemma_arr6(a: [u8; 6])
    ensures
        arr6(a@) == a,
{
    broadcast use vstd::array::group_array_axioms;
    assert(exists|x: [u8; 6]| #[trigger] x@ == a@) by {
        assert(a@ == a@);
    }
    let c = arr6(a@);
    assert(c =~= a);
}

/// The 16 bytes of `d` from `at`.
pub fn copy16(d: &[u8], at: usize) -> (r: [u8; 16])
    requires
        at + 16 <= d@.len(),
    ensures
        r == arr16(d@.subrange(at as int, at + 16)),
{
    let r: [u8; 16] = [d[at], d[at + 1], d[at + 2], d[at + 3], d[at + 4], d[at + 5], d[at + 6], d[at + 7],
        d[at + 8], d[at + 9], d[at + 10], d[at + 11], d[at + 12], d[at + 13], d[at + 14], d[at + 15]];
    assert(r@ =~= d@.subrange(at as int, at + 16));
    proof {
        lemma_arr16(r);
    }
    r
}

/// The 32 bytes of `d` from `at`.
pub fn copy32(d: &[u8], at: usize) -> (r: [u8; 32])
    requires
        at + 32 <= d@.len(),
    ensures
        r == arr32(d@.subrange(at as int, at + 32)),
{
    let r: [u8; 32] = [d[at], d[at + 1], d[at + 2], d[at + 3], d[at + 4], d[at + 5], d[at + 6], d[at + 7],
        d[at + 8], d[at + 9], d[at + 10], d[at + 11], d[at + 12], d[at + 13], d[at + 14], d[at + 15],
        d[at + 16], d[at + 17], d[at + 18], d[at + 19], d[at + 20], d[at + 21], d[at + 22], d[at + 23],
        d[at + 24], d[at + 25], d[at + 26], d[at + 27], d[at + 28], d[at + 29], d[at + 30], d[at + 31]];
    assert(r@ =~= d@.subrange(at as int, at + 32));
    proof {
        lemma_arr32(r);
    }
    r
}

/// The 6 bytes of `d` from `at`.
pub fn copy6(d: &[u8], at: usize) -> (r: [u8; 6])
    requires
        at + 6 <= d@.len(),
    ensures
        r == arr6(d@.subrange(at as int, at + 6)),
{
    let r: [u8; 6] = [d[at], d[at + 1], d[at + 2], d[at + 3], d[at + 4], d[at + 5]];
    assert(r@ =~= d@.subrange(at as int, at + 6));
    proof {
        lemma_arr6(r);
    }
    r
}

/// Sixteen zero bytes.
pub open spec fn zeros16() -> [u8; 16] {
    arr16(Seq::new(16, |i: int| 0u8))
}

/// Thirty-two zero bytes.
pub open spec fn zeros32() -> [u8; 32] {
    arr32(Seq::new(32, |i: int| 0u8))
}

/// Sixteen zero bytes.
pub fn zero16() -> (r: [u8; 16])
    ensures
        r == zeros16(),
        r@ == Seq::new(16, |i: int| 0u8),
{
    let r: [u8; 16] = [0, 0, 0, 0, 0, 0, 0, 0, 0, 0, 0, 0, 0, 0, 0, 0];
    assert(r@ =~= Seq::new(16, |i: int| 0u8));
    proof {
        lemma_arr16(r);
    }
    r
}

/// Thirty-two zero bytes.
pub fn zero32() -> (r: [u8; 32])
    ensures
        r == zeros32(),
        r@ == Seq::new(32, |i: int| 0u8),
{
    let r: [u8; 32] = [0, 0, 0, 0, 0, 0, 0, 0, 0, 0, 0, 0, 0, 0, 0, 0, 0, 0, 0, 0, 0, 0, 0, 0, 0, 0, 0, 0, 0, 0, 0, 0];
    assert(r@ =~= Seq::new(32, |i: int| 0u8));
    proof {
        lemma_arr32(r);
    }
    r
}

/// The parameters this host offers, with IO capability `io`.
pub open spec fn host_params(io: IoCapability) -> PairingParams {
    PairingParams {
        io_capability: io,
        oob_data_flag: OobDataFlag::NotPresent,
        auth_req: AuthReq { bonding: true, mitm: false, sc: true, keypress: false, ct2: false },
        max_key_size: 16,
        init_key_dist: KeyDist { enc_key: true, id_key: true, sign_key: false, link_key: false },
        resp_key_dist: KeyDist { enc_key: true, id_key: true, sign_key: false, link_key: false },
    }
}

/// No keys at all.
pub open spec fn no_keys() -> SecurityKeys {
    SecurityKeys { ltk: None, irk: None, csrk: None, remote_ltk: None, remote_irk: None, remote_csrk: None }
}

/// A fresh, idle session with this host's parameters and IO capability `io`.
pub open spec fn fresh_session(handle: u16, remote_addr: BdAddr, initiator: bool, io: IoCapability) -> SmpSession {
    SmpSession {
        handle,
        remote_addr,
        initiator,
        state: PairingState::Idle,
        method: PairingMethod::JustWorks,
        local_params: host_params(io),
        remote_params: None,
        local_random: zeros16(),
        remote_random: zeros16(),
        local_confirm: zeros16(),
        remote_confirm: zeros16(),
        passkey: 0,
        local_pk_x: zeros32(),
        local_pk_y: zeros32(),
        remote_pk_x: zeros32(),
        remote_pk_y: zeros32(),
        dhkey: zeros32(),
        mackey: zeros16(),
        ltk: zeros16(),
        enc_key_size: 16,
        keys: no_keys(),
        secure_connections: false,
    }
}

/// SMP session for a connection
#[derive(Clone, Copy)]
pub struct SmpSession {
    pub handle: u16,
    pub remote_addr: BdAddr,
    pub initiator: bool,
    pub state: PairingState,
    pub method: PairingMethod,
    pub local_params: PairingParams,
    pub remote_params: Option<PairingParams>,
    pub local_random: [u8; 16],
    pub remote_random: [u8; 16],
    pub local_confirm: [u8; 16],
    pub remote_confirm: [u8; 16],
    pub passkey: u32,
    pub local_pk_x: [u8; 32],
    pub local_pk_y: [u8; 32],
    pub remote_pk_x: [u8; 32],
    pub remote_pk_y: [u8; 32],
    pub dhkey: [u8; 32],
    pub mackey: [u8; 16],
    pub ltk: [u8; 16],
    pub enc_key_size: u8,
    pub keys: SecurityKeys,
    pub secure_connections: bool,
}

impl SmpSession {
    /// A fresh, idle session with this host's default parameters
    pub fn new(handle: u16, remote_addr: BdAddr, initiator: bool) -> (r: Self)
        ensures
            r == fresh_session(handle, remote_addr, initiator, IoCapability::NoInputNoOutput),
            r.handle == handle && r.remote_addr == remote_addr && r.initiator == initiator,
            r.state == PairingState::Idle,
            r.method == PairingMethod::JustWorks,
            r.local_params.io_capability == IoCapability::NoInputNoOutput,
            r.local_params.max_key_size == 16,
            r.remote_params.is_none(),
            r.passkey == 0,
            r.enc_key_size == 16,
            !r.secure_connections,
    {
        SmpSession {
            handle,
            remote_addr,
            initiator,
            state: PairingState::Idle,
            method: PairingMethod::JustWorks,
            local_params: PairingParams::default_params(),
            remote_params: None,
            local_random: zero16(),
            remote_random: zero16(),
            local_confirm: zero16(),
            remote_confirm: zero16(),
            passkey: 0,
            local_pk_x: zero32(),
            local_pk_y: zero32(),
            remote_pk_x: zero32(),
            remote_pk_y: zero32(),
            dhkey: zero32(),
            mackey: zero16(),
            ltk: zero16(),
            enc_key_size: 16,
            keys: SecurityKeys { ltk: None, irk: None, csrk: None, remote_ltk: None, remote_irk: None, remote_csrk: None },
            secure_connections: false,
        }
    }

    /// Get state
    pub fn state(&self) -> (r: PairingState)
        ensures
            r == self.state,
    {
        self.state
    }

    /// Set state
    pub fn set_state(&mut self, state: PairingState)
        ensures
            *final(self) == (SmpSession { state, ..*old(self) }),
    {
        self.state = state;
    }

    /// Determine pairing method from both sides' parameters
    pub fn determine_method(&self) -> (r: PairingMethod)
        ensures
            r == pairing_method(self.local_params, self.remote_params),
    {
        let local = self.local_params;
        let remote = match self.remote_params {
            Some(r) => r,
            None => return PairingMethod::JustWorks,
        };
        if local.oob_data_flag == OobDataFlag::Present || remote.oob_data_flag == OobDataFlag::Present {
            return PairingMethod::OutOfBand;
        }
        let mitm_required = local.auth_req.mitm || remote.auth_req.mitm;
        if !mitm_required {
            return PairingMethod::JustWorks;
        }
        let sc = local.auth_req.sc && remote.auth_req.sc;
        match (local.io_capability, remote.io_capability) {
            (IoCapability::DisplayOnly, IoCapability::DisplayOnly) => PairingMethod::JustWorks,
            (IoCapability::DisplayOnly, IoCapability::DisplayYesNo) => PairingMethod::JustWorks,
            (IoCapability::DisplayOnly, IoCapability::KeyboardOnly) => PairingMethod::PasskeyEntry,
            (IoCapability::DisplayOnly, IoCapability::NoInputNoOutput) => PairingMethod::JustWorks,
            (IoCapability::DisplayOnly, IoCapability::KeyboardDisplay) => PairingMethod::PasskeyEntry,
            (IoCapability::DisplayYesNo, IoCapability::DisplayOnly) => PairingMethod::JustWorks,
            (IoCapability::DisplayYesNo, IoCapability::DisplayYesNo) => {
                if sc { PairingMethod::NumericComparison } else { PairingMethod::JustWorks }
            },
            (IoCapability::DisplayYesNo, IoCapability::KeyboardOnly) => PairingMethod::PasskeyEntry,
            (IoCapability::DisplayYesNo, IoCapability::NoInputNoOutput) => PairingMethod::JustWorks,
            (IoCapability::DisplayYesNo, IoCapability::KeyboardDisplay) => {
                if sc { PairingMethod::NumericComparison } else { PairingMethod::PasskeyEntry }
            },
            (IoCapability::KeyboardOnly, IoCapability::DisplayOnly) => PairingMethod::PasskeyEntry,
            (IoCapability::KeyboardOnly, IoCapability::DisplayYesNo) => PairingMethod::PasskeyEntry,
            (IoCapability::KeyboardOnly, IoCapability::KeyboardOnly) => PairingMethod::PasskeyEntry,
            (IoCapability::KeyboardOnly, IoCapability::NoInputNoOutput) => PairingMethod::JustWorks,
            (IoCapability::KeyboardOnly, IoCapability::KeyboardDisplay) => PairingMethod::PasskeyEntry,
            (IoCapability::NoInputNoOutput, _) => PairingMethod::JustWorks,
            (IoCapability::KeyboardDisplay, IoCapability::DisplayOnly) => PairingMethod::PasskeyEntry,
            (IoCapability::KeyboardDisplay, IoCapability::DisplayYesNo) => {
                if sc { PairingMethod::NumericComparison } else { PairingMethod::PasskeyEntry }
            },
            (IoCapability::KeyboardDisplay, IoCapability::KeyboardOnly) => PairingMethod::PasskeyEntry,
            (IoCapability::KeyboardDisplay, IoCapability::NoInputNoOutput) => PairingMethod::JustWorks,
            (IoCapability::KeyboardDisplay, IoCapability::KeyboardDisplay) => {
                if sc { PairingMethod::NumericComparison } else { PairingMethod::PasskeyEntry }
            },
        }
    }
}

} // verus!
