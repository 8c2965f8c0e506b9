//! Bluetooth core types: device addresses, device classes and UUIDs.
use vstd::prelude::*;

pub mod hci;
pub mod l2cap;
pub mod rfcomm;
pub mod smp;
pub mod a2dp;
pub mod hid;
pub mod sdp;
pub mod adapter;

verus! {

/// Bluetooth errors
#[derive(Clone, Copy, Debug, PartialEq, Eq, Structural)]
pub enum BluetoothError {
    NoAdapter,
    AdapterBusy,
    DeviceNotFound,
    ConnectionFailed,
    ConnectionRefused,
    ConnectionTimeout,
    AuthenticationFailed,
    PairingFailed,
    ProtocolError,
    InvalidParameter,
    NotSupported,
    NotConnected,
    AlreadyConnected,
    ResourceExhausted,
    HardwareError,
    InvalidState,
    CommandDisallowed,
    NotFound,
    Timeout,
    WouldBlock,
}

/// Bluetooth device address (6 bytes, little endian as on the wire)
#[derive(Clone, Copy, Debug, PartialEq, Eq)]
pub struct BdAddr(pub [u8; 6]);

impl BdAddr {
    /// Create from bytes
    pub fn from_bytes(bytes: [u8; 6]) -> (r: Self)
        ensures
            r.0 == bytes,
    {
        BdAddr(bytes)
    }

    /// Get bytes
    pub fn to_bytes(&self) -> (r: [u8; 6])
        ensures
            r == self.0,
    {
        self.0
    }

    /// Check if address is all zeros
    pub fn is_zero(&self) -> (r: bool)
        ensures
            r == (forall|i: int| 0 <= i < 6 ==> self.0@[i] == 0),
    {
        let b = self.0;
        b[0] == 0 && b[1] == 0 && b[2] == 0 && b[3] == 0 && b[4] == 0 && b[5] == 0
    }

    /// Check if this is a random address (two top bits of the last byte set)
    pub fn is_random(&self) -> (r: bool)
        ensures
            r == (self.0@[5] >= 0xC0),
    {
        let b = self.0[5];
        assert((b & 0xC0) == 0xC0 <==> b >= 0xC0) by (bit_vector);
        (b & 0xC0) == 0xC0
    }

    /// Check if this is a public address
    pub fn is_public(&self) -> (r: bool)
        ensures
            r == (self.0@[5] < 0xC0),
    {
        !self.is_random()
    }
}


/// Address type
#[derive(Clone, Copy, Debug, PartialEq, Eq, Structural)]
pub enum AddressType {
    /// BR/EDR (Classic Bluetooth)
    BrEdr,
    /// LE Public
    LePublic,
    /// LE Random
    LeRandom,
}

/// Bluetooth device class (24 bits)
#[derive(Clone, Copy, Debug, PartialEq, Eq, Structural)]
pub struct DeviceClass(pub u32);

/// Major device class
#[derive(Clone, Copy, Debug, PartialEq, Eq, Structural)]
pub enum MajorDeviceClass {
    Miscellaneous,
    Computer,
    Phone,
    LanAccessPoint,
    AudioVideo,
    Peripheral,
    Imaging,
    Wearable,
    Toy,
    Health,
    Uncategorized,
}

/// The major class named by a five-bit major class code.
pub open spec fn major_class_of(code: int) -> MajorDeviceClass {
    if code == 0 { MajorDeviceClass::Miscellaneous }
    else if code == 1 { MajorDeviceClass::Computer }
    else if code == 2 { MajorDeviceClass::Phone }
    else if code == 3 { MajorDeviceClass::LanAccessPoint }
    else if code == 4 { MajorDeviceClass::AudioVideo }
    else if code == 5 { MajorDeviceClass::Peripheral }
    else if code == 6 { MajorDeviceClass::Imaging }
    else if code == 7 { MajorDeviceClass::Wearable }
    else if code == 8 { MajorDeviceClass::Toy }
    else if code == 9 { MajorDeviceClass::Health }
    else { MajorDeviceClass::Uncategorized }
}

impl DeviceClass {
    /// Major device class: bits 8..13 of the class of device
    pub fn major(&self) -> (r: MajorDeviceClass)
        ensures
            r == major_class_of(((self.0 / 256) % 32) as int),
    {
        let x = self.0;
        assert(((x >> 8) & 0x1F) == (x / 256) % 32) by (bit_vector);
        match (x >> 8) & 0x1F {
            0 => MajorDeviceClass::Miscellaneous,
            1 => MajorDeviceClass::Computer,
            2 => MajorDeviceClass::Phone,
            3 => MajorDeviceClass::LanAccessPoint,
            4 => MajorDeviceClass::AudioVideo,
            5 => MajorDeviceClass::Peripheral,
            6 => MajorDeviceClass::Imaging,
            7 => MajorDeviceClass::Wearable,
            8 => MajorDeviceClass::Toy,
            9 => MajorDeviceClass::Health,
            _ => MajorDeviceClass::Uncategorized,
        }
    }

    /// Minor device class: bits 2..8 (meaning depends on the major class)
    pub fn minor(&self) -> (r: u8)
        ensures
            r == (self.0 / 4) % 64,
    {
        let x = self.0;
        assert(((x >> 2) & 0x3F) == (x / 4) % 64) by (bit_vector);
        ((x >> 2) & 0x3F) as u8
    }

    /// Service classes: bits 13..24
    pub fn services(&self) -> (r: u16)
        ensures
            r == (self.0 / 8192) % 2048,
    {
        let x = self.0;
        assert(((x >> 13) & 0x7FF) == (x / 8192) % 2048) by (bit_vector);
        ((x >> 13) & 0x7FF) as u16
    }
}

/// Bluetooth device info
#[derive(Clone, Debug)]
pub struct DeviceInfo {
    pub address: BdAddr,
    pub address_type: AddressType,
    pub name: String,
    pub class: DeviceClass,
    pub paired: bool,
    pub connected: bool,
    pub trusted: bool,
    pub blocked: bool,
    pub rssi: i8,
    pub tx_power: i8,
    pub manufacturer_data: Vec<(u16, Vec<u8>)>,
    pub service_uuids: Vec<Uuid>,
    pub service_data: Vec<(Uuid, Vec<u8>)>,
    pub last_seen: u64,
}

impl DeviceInfo {
    /// A freshly discovered BR/EDR device with nothing else known about it
    pub fn new(address: BdAddr) -> (r: Self)
        ensures
            r.address == address,
            r.address_type == AddressType::BrEdr,
            r.name@ == Seq::<char>::empty(),
            r.class == DeviceClass(0),
            !r.paired && !r.connected && !r.trusted && !r.blocked,
            r.rssi == 0 && r.tx_power == 0,
            r.manufacturer_data@.len() == 0,
            r.service_uuids@.len() == 0,
            r.service_data@.len() == 0,
            r.last_seen == 0,
    {
        DeviceInfo {
            address,
            address_type: AddressType::BrEdr,
            name: String::new(),
            class: DeviceClass(0),
            paired: false,
            connected: false,
            trusted: false,
            blocked: false,
            rssi: 0,
            tx_power: 0,
            manufacturer_data: Vec::new(),
            service_uuids: Vec::new(),
            service_data: Vec::new(),
            last_seen: 0,
        }
    }
}

/// Bluetooth UUID (128 bits, big endian)
#[derive(Clone, Copy, Debug, PartialEq, Eq)]
pub struct Uuid {
    pub bytes: [u8; 16],
}

/// The last twelve bytes of the Bluetooth Base UUID
/// (0000xxxx-0000-1000-8000-00805F9B34FB).
pub open spec fn base_uuid_tail() -> Seq<u8> {
    seq![0x00u8, 0x00, 0x10, 0x00, 0x80, 0x00, 0x00, 0x80, 0x5F, 0x9B, 0x34, 0xFB]
}

/// The four leading bytes of a UUID built on the base UUID from a 32-bit value.
pub open spec fn be32(x: u32) -> Seq<u8> {
    seq![(x / 16777216) as u8, ((x / 65536) % 256) as u8, ((x / 256) % 256) as u8, (x % 256) as u8]
}

/// Whether the 128-bit value is built on the Bluetooth Base UUID.
pub open spec fn on_base_uuid(b: Seq<u8>) -> bool {
    b.subrange(4, 16) == base_uuid_tail()
}

fn base_tail() -> (r: [u8; 12])
    ensures
        r@ == base_uuid_tail(),
{
    let r: [u8; 12] = [0x00, 0x00, 0x10, 0x00, 0x80, 0x00, 0x00, 0x80, 0x5F, 0x9B, 0x34, 0xFB];
    assert(r@ =~= base_uuid_tail());
    r
}

impl Uuid {
    /// Build the UUID for a 16-bit alias on the Bluetooth Base UUID
    pub fn from_u16_const(uuid: u16) -> (r: Self)
        ensures
            r.bytes@ == seq![0u8, 0u8, (uuid / 256) as u8, (uuid % 256) as u8] + base_uuid_tail(),
    {
        let t = base_tail();
        let r = Uuid {
            bytes: [
                0x00, 0x00, crate::wire::hi8(uuid), crate::wire::lo8(uuid),
                t[0], t[1], t[2], t[3], t[4], t[5], t[6], t[7], t[8], t[9], t[10], t[11],
            ],
        };
        assert(r.bytes@ =~= seq![0u8, 0u8, (uuid / 256) as u8, (uuid % 256) as u8] + base_uuid_tail());
        r
    }

    /// Create from 16-bit UUID (Bluetooth Base UUID)
    pub fn from_u16(uuid: u16) -> (r: Self)
        ensures
            r.bytes@ == seq![0u8, 0u8, (uuid / 256) as u8, (uuid % 256) as u8] + base_uuid_tail(),
    {
        Self::from_u16_const(uuid)
    }

    /// Create from 32-bit UUID (Bluetooth Base UUID)
    pub fn from_u32(uuid: u32) -> (r: Self)
        ensures
            r.bytes@ == be32(uuid) + base_uuid_tail(),
    {
        let t = base_tail();
        let r = Uuid {
            bytes: [
                crate::wire::byte_of_u32(uuid, 3), crate::wire::byte_of_u32(uuid, 2),
                crate::wire::byte_of_u32(uuid, 1), crate::wire::byte_of_u32(uuid, 0),
                t[0], t[1], t[2], t[3], t[4], t[5], t[6], t[7], t[8], t[9], t[10], t[11],
            ],
        };
        assert(r.bytes@ =~= be32(uuid) + base_uuid_tail());
        r
    }

    /// Create from 128-bit bytes
    pub fn from_bytes(bytes: [u8; 16]) -> (r: Self)
        ensures
            r.bytes == bytes,
    {
        Uuid { bytes }
    }

    /// Check if this is based on the Bluetooth Base UUID
    pub fn is_base_uuid(&self) -> (r: bool)
        ensures
            r == on_base_uuid(self.bytes@),
    {
        let t = base_tail();
        let mut i: usize = 0;
        while i < 12
            invariant
                i <= 12,
                t@ == base_uuid_tail(),
                forall|j: int| 0 <= j < i ==> self.bytes@[4 + j] == t@[j],
            decreases 12 - i,
        {
            if self.bytes[i + 4] != t[i] {
                assert(self.bytes@.subrange(4, 16)[i as int] != base_uuid_tail()[i as int]);
                return false;
            }
            i = i + 1;
        }
        assert(self.bytes@.subrange(4, 16) =~= base_uuid_tail());
        true
    }

    /// The 16-bit alias, if this UUID is a 16-bit UUID on the base UUID
    pub fn to_u16(&self) -> (r: Option<u16>)
        ensures
            r == (if on_base_uuid(self.bytes@) && self.bytes@[0] == 0 && self.bytes@[1] == 0 {
                Some((256 * self.bytes@[2] + self.bytes@[3]) as u16)
            } else {
                None::<u16>
            }),
    {
        if self.is_base_uuid() {
            if self.bytes[0] == 0 && self.bytes[1] == 0 {
                return Some(crate::wire::make_u16(self.bytes[3], self.bytes[2]));
            }
        }
        None
    }

    /// The 32-bit alias, if this UUID is built on the base UUID
    pub fn to_u32(&self) -> (r: Option<u32>)
        ensures
            r == (if on_base_uuid(self.bytes@) {
                Some(crate::wire::from_le32(self.bytes@[3], self.bytes@[2], self.bytes@[1], self.bytes@[0]))
            } else {
                None::<u32>
            }),
    {
        if self.is_base_uuid() {
            return Some(crate::wire::make_u32(self.bytes[3], self.bytes[2], self.bytes[1], self.bytes[0]));
        }
        None
    }
}

/// A 16-bit alias survives the trip through the base UUID.
pub proof fn lemma_uuid16_roundtrip(u: Uuid, x: u16)
    requires
        u.bytes@ == seq![0u8, 0u8, (x / 256) as u8, (x % 256) as u8] + base_uuid_tail(),
    ensures
        on_base_uuid(u.bytes@),
        u.bytes@[0] == 0 && u.bytes@[1] == 0,
        (256 * u.bytes@[2] + u.bytes@[3]) as u16 == x,
{
    assert(u.bytes@.subrange(4, 16) =~= base_uuid_tail());
}

/// A 32-bit alias survives the trip through the base UUID.
pub proof fn lemma_uuid32_roundtrip(u: Uuid, x: u32)
    requires
        u.bytes@ == be32(x) + base_uuid_tail(),
    ensures
        on_base_uuid(u.bytes@),
        crate::wire::from_le32(u.bytes@[3], u.bytes@[2], u.bytes@[1], u.bytes@[0]) == x,
{
    assert(u.bytes@.subrange(4, 16) =~= base_uuid_tail());
}

/// Connection state
#[derive(Clone, Copy, Debug, PartialEq, Eq, Structural)]
pub enum ConnectionState {
    Disconnected,
    Connecting,
    Connected,
    Disconnecting,
}

/// Connection parameters
#[derive(Clone, Copy, Debug, PartialEq, Eq, Structural)]
pub struct ConnectionParams {
    /// Connection interval minimum (in 1.25ms units)
    pub interval_min: u16,
    /// Connection interval maximum
    pub interval_max: u16,
    /// Slave latency
    pub latency: u16,
    /// Supervision timeout (in 10ms units)
    pub timeout: u16,
}

impl Default for ConnectionParams {
    fn default() -> (r: Self)
        ensures
            r == (ConnectionParams { interval_min: 6, interval_max: 40, latency: 0, timeout: 100 }),
    {
        ConnectionParams { interval_min: 6, interval_max: 40, latency: 0, timeout: 100 }
    }
}

/// Adapter features
#[derive(Clone, Copy, Debug, Default, PartialEq, Eq, Structural)]
pub struct AdapterFeatures {
    pub br_edr: bool,
    pub le: bool,
    pub ssp: bool,
    pub secure_connections: bool,
    pub le_extended_advertising: bool,
    pub le_2m_phy: bool,
    pub le_coded_phy: bool,
    pub max_adv_len: u16,
}

/// Adapter statistics
#[derive(Clone, Copy, Debug, Default, PartialEq, Eq, Structural)]
pub struct AdapterStats {
    pub bytes_sent: u64,
    pub bytes_received: u64,
    pub packets_sent: u64,
    pub packets_received: u64,
    pub connections_established: u64,
    pub connections_failed: u64,
    pub errors: u64,
}

} // verus!
