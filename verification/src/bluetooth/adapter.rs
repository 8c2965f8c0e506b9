//! The Bluetooth adapter (a controller with the devices it knows and the
//! L2CAP channels it made) and the subsystem that holds the adapters.
use vstd::prelude::*;
use super::{AdapterFeatures, AdapterStats, AddressType, BdAddr, BluetoothError, DeviceClass, DeviceInfo, Uuid};
use super::hci::{event_code_of, HciEvent, HciEventCode, HciState, HCI_OP_RESET, HCI_OP_READ_BD_ADDR, HCI_OP_READ_LOCAL_FEATURES, HCI_OP_WRITE_SCAN_ENABLE, HCI_OP_INQUIRY, HCI_OP_INQUIRY_CANCEL, HCI_OP_LE_SET_SCAN_PARAM, HCI_OP_LE_SET_SCAN_ENABLE, HCI_OP_CREATE_CONN, HCI_OP_LE_CREATE_CONN, HCI_OP_DISCONNECT, address_type_code};
use super::hci::controller::{awaited, queued, HciController, HciControllerView};
use super::l2cap::{new_channel_view, L2capChannel, L2capChannelView};
use crate::wire::{le16, flag_byte};

verus! {

/// What a device record holds.
pub struct DeviceInfoView {
    /// The six address bytes
    pub address: Seq<u8>,
    pub address_type: AddressType,
    pub name: Seq<char>,
    pub class: DeviceClass,
    pub paired: bool,
    pub connected: bool,
    pub trusted: bool,
    pub blocked: bool,
    pub rssi: i8,
    pub tx_power: i8,
    pub manufacturer_data: Seq<(u16, Seq<u8>)>,
    pub service_uuids: Seq<Uuid>,
    pub service_data: Seq<(Uuid, Seq<u8>)>,
    pub last_seen: u64,
}

impl View for DeviceInfo {
    type V = DeviceInfoView;

    open spec fn view(&self) -> DeviceInfoView {
        DeviceInfoView {
            address: self.address.0@,
            address_type: self.address_type,
            name: self.name@,
            class: self.class,
            paired: self.paired,
            connected: self.connected,
            trusted: self.trusted,
            blocked: self.blocked,
            rssi: self.rssi,
            tx_power: self.tx_power,
            manufacturer_data: self.manufacturer_data@.map_values(|p: (u16, Vec<u8>)| (p.0, p.1@)),
            service_uuids: self.service_uuids@,
            service_data: self.service_data@.map_values(|p: (Uuid, Vec<u8>)| (p.0, p.1@)),
            last_seen: self.last_seen,
        }
    }
}

/// The order of device addresses: byte by byte from the first, that is, as
/// big-endian numbers.
pub open spec fn addr_order(a: Seq<u8>) -> nat {
    (((((a[0] as nat * 256 + a[1]) * 256 + a[2]) * 256 + a[3]) * 256 + a[4]) * 256 + a[5]) as nat
}

fn addr_order_of(a: &BdAddr) -> (r: u64)
    ensures
        r == addr_order(a.0@),
{
    let b = a.0;
    ((((b[0] as u64 * 256 + b[1] as u64) * 256 + b[2] as u64) * 256 + b[3] as u64) * 256 + b[4] as u64) * 256 + b[5] as u64
}

/// The device addresses rise strictly.
pub open spec fn infos_sorted(s: Seq<DeviceInfoView>) -> bool {
    forall|i: int, j: int| 0 <= i < j < s.len() ==> #[trigger] addr_order(s[i].address) < #[trigger] addr_order(s[j].address)
}

/// Index of the device with address value `k`, or -1.
pub open spec fn find_info(s: Seq<DeviceInfoView>, k: nat) -> int
    decreases s.len(),
{
    if s.len() == 0 {
        -1
    } else if addr_order(s.last().address) == k {
        s.len() - 1
    } else {
        find_info(s.drop_last(), k)
    }
}

/// Index of the first device whose address is not below `k`.
pub open spec fn info_lower_bound(s: Seq<DeviceInfoView>, k: nat) -> int
    decreases s.len(),
{
    if s.len() == 0 || addr_order(s.last().address) < k {
        s.len() as int
    } else {
        info_lower_bound(s.drop_last(), k)
    }
}

/// The devices with `d` put in under its address, replacing one there.
pub open spec fn insert_info(s: Seq<DeviceInfoView>, d: DeviceInfoView) -> Seq<DeviceInfoView> {
    let k = addr_order(d.address);
    let i = find_info(s, k);
    if i >= 0 { s.update(i, d) } else { s.insert(info_lower_bound(s, k), d) }
}

proof fn lemma_find_info(s: Seq<DeviceInfoView>, k: nat)
    ensures
        -1 <= find_info(s, k) < s.len(),
        find_info(s, k) >= 0 ==> addr_order(s[find_info(s, k)].address) == k,
        find_info(s, k) < 0 ==> forall|m: int| 0 <= m < s.len() ==> addr_order(#[trigger] s[m].address) != k,
    decreases s.len(),
{
    if s.len() > 0 && addr_order(s.last().address) != k {
        lemma_find_info(s.drop_last(), k);
        assert forall|m: int| 0 <= m < s.len() - 1 implies #[trigger] s[m].address == s.drop_last()[m].address by {}
    }
}

proof fn lemma_info_lower_bound(s: Seq<DeviceInfoView>, k: nat)
    requires
        infos_sorted(s),
    ensures
        0 <= info_lower_bound(s, k) <= s.len(),
        forall|m: int| 0 <= m < info_lower_bound(s, k) ==> addr_order(#[trigger] s[m].address) < k,
        forall|m: int| info_lower_bound(s, k) <= m < s.len() ==> addr_order(#[trigger] s[m].address) >= k,
    decreases s.len(),
{
    if s.len() > 0 && addr_order(s.last().address) >= k {
        assert(infos_sorted(s.drop_last()));
        lemma_info_lower_bound(s.drop_last(), k);
        assert forall|m: int| 0 <= m < info_lower_bound(s, k) implies addr_order(#[trigger] s[m].address) < k by {
            assert(s[m].address == s.drop_last()[m].address);
        }
        assert forall|m: int| info_lower_bound(s, k) <= m < s.len() implies addr_order(#[trigger] s[m].address) >= k by {
            if m < s.len() - 1 {
                assert(s[m].address == s.drop_last()[m].address);
            }
        }
    } else if s.len() > 0 {
        assert forall|m: int| 0 <= m < s.len() implies addr_order(#[trigger] s[m].address) < k by {
            if m < s.len() - 1 {
                assert(addr_order(s[m].address) < addr_order(s.last().address));
            }
        }
    }
}

proof fn lemma_insert_info_sorted(s: Seq<DeviceInfoView>, d: DeviceInfoView)
    requires
        infos_sorted(s),
    ensures
        infos_sorted(insert_info(s, d)),
{
    let k = addr_order(d.address);
    lemma_find_info(s, k);
    lemma_info_lower_bound(s, k);
    let r = insert_info(s, d);
    if find_info(s, k) < 0 {
        let p = info_lower_bound(s, k);
        assert forall|i: int, j: int| 0 <= i < j < r.len() implies #[trigger] addr_order(r[i].address) < #[trigger] addr_order(
            r[j].address,
        ) by {
            if j < p {
            } else if j == p {
            } else if i < p {
                assert(r[j] == s[j - 1]);
            } else if i == p {
                assert(r[j] == s[j - 1]);
            } else {
                assert(r[i] == s[i - 1] && r[j] == s[j - 1]);
            }
        }
    } else {
        let i0 = find_info(s, k);
        assert forall|i: int, j: int| 0 <= i < j < r.len() implies #[trigger] addr_order(r[i].address) < #[trigger] addr_order(
            r[j].address,
        ) by {
            assert(addr_order(r[i].address) == addr_order(s[i].address));
            assert(addr_order(r[j].address) == addr_order(s[j].address));
        }
    }
}

proof fn lemma_remove_info_sorted(s: Seq<DeviceInfoView>, i: int)
    requires
        infos_sorted(s),
        0 <= i < s.len(),
    ensures
        infos_sorted(s.remove(i)),
{
    let r = s.remove(i);
    assert forall|a: int, b: int| 0 <= a < b < r.len() implies #[trigger] addr_order(r[a].address) < #[trigger] addr_order(
        r[b].address,
    ) by {
        let a2 = if a < i { a } else { a + 1 };
        let b2 = if b < i { b } else { b + 1 };
        assert(r[a] == s[a2] && r[b] == s[b2]);
    }
}

/// The record of the device an inquiry response at `off` reports: its
/// address and class, seen at `now`, nothing else known.
pub open spec fn inquiry_info(p: Seq<u8>, off: int, now: u64) -> DeviceInfoView {
    DeviceInfoView {
        address: p.subrange(off, off + 6),
        address_type: AddressType::BrEdr,
        name: Seq::empty(),
        class: DeviceClass((p[off + 9] + 256 * p[off + 10] + 65536 * p[off + 11]) as u32),
        paired: false,
        connected: false,
        trusted: false,
        blocked: false,
        rssi: 0,
        tx_power: 0,
        manufacturer_data: Seq::empty(),
        service_uuids: Seq::empty(),
        service_data: Seq::empty(),
        last_seen: now,
    }
}

/// The devices after the first `k` responses of an inquiry result with
/// parameters `p` (14 bytes each after the count byte; a response that does
/// not fit is skipped).
pub open spec fn after_inquiry(s: Seq<DeviceInfoView>, p: Seq<u8>, now: u64, k: nat) -> Seq<DeviceInfoView>
    decreases k,
{
    if k == 0 {
        s
    } else {
        let s1 = after_inquiry(s, p, now, (k - 1) as nat);
        let off = 1 + 14 * (k - 1);
        if off + 14 <= p.len() { insert_info(s1, inquiry_info(p, off, now)) } else { s1 }
    }
}

/// The devices with the one at address `a` (if known) marked connected.
pub open spec fn mark_connected(s: Seq<DeviceInfoView>, a: Seq<u8>) -> Seq<DeviceInfoView> {
    let i = find_info(s, addr_order(a));
    if i < 0 { s } else { s.update(i, DeviceInfoView { connected: true, ..s[i] }) }
}

/// The devices after HCI event `code` with parameters `p` at time `now`:
/// an inquiry result records the devices it reports, a successful
/// connection complete marks its device connected.
pub open spec fn devices_after_event(s: Seq<DeviceInfoView>, code: u8, p: Seq<u8>, now: u64) -> Seq<DeviceInfoView> {
    match event_code_of(code) {
        Some(HciEventCode::InquiryResult) => if p.len() >= 14 { after_inquiry(s, p, now, p[0] as nat) } else { s },
        Some(HciEventCode::ConnectionComplete) => if p.len() >= 11 && p[0] == 0 { mark_connected(s, p.subrange(3, 9)) } else { s },
        _ => s,
    }
}

/// What an adapter holds.
pub struct BluetoothAdapterView {
    pub id: u32,
    pub name: Seq<char>,
    pub address: BdAddr,
    pub powered: bool,
    pub discoverable: bool,
    pub pairable: bool,
    pub scanning: bool,
    pub features: AdapterFeatures,
    pub hci: HciControllerView,
    /// Known devices, by ascending address
    pub devices: Seq<DeviceInfoView>,
    pub l2cap_channels: Seq<L2capChannelView>,
    pub next_cid: u32,
    pub stats: AdapterStats,
}

/// Bluetooth adapter/controller
pub struct BluetoothAdapter {
    /// Adapter ID
    pub id: u32,
    /// Adapter name
    pub name: String,
    /// Device address
    pub address: BdAddr,
    /// Is powered on
    pub powered: bool,
    /// Is discoverable
    pub discoverable: bool,
    /// Is pairable
    pub pairable: bool,
    /// Is scanning
    pub scanning: bool,
    /// Supported features
    pub features: AdapterFeatures,
    hci: HciController,
    devices: Vec<DeviceInfo>,
    l2cap_channels: Vec<L2capChannel>,
    next_cid: u32,
    stats: AdapterStats,
}

impl View for BluetoothAdapter {
    type V = BluetoothAdapterView;

    closed spec fn view(&self) -> BluetoothAdapterView {
        BluetoothAdapterView {
            id: self.id,
            name: self.name@,
            address: self.address,
            powered: self.powered,
            discoverable: self.discoverable,
            pairable: self.pairable,
            scanning: self.scanning,
            features: self.features,
            hci: self.hci@,
            devices: self.devices@.map_values(|d: DeviceInfo| d@),
            l2cap_channels: self.l2cap_channels@.map_values(|c: L2capChannel| c@),
            next_cid: self.next_cid,
            stats: self.stats,
        }
    }
}

/// The adapter with the controller changed to `h`.
pub open spec fn with_hci(v: BluetoothAdapterView, h: HciControllerView) -> BluetoothAdapterView {
    BluetoothAdapterView { hci: h, ..v }
}

impl BluetoothAdapter {
    /// The adapter's invariant: one record per device, by ascending address.
    pub closed spec fn wf(&self) -> bool {
        infos_sorted(self@.devices)
    }

    /// Create new adapter: powered off, pairable, named "QuantaOS
    /// Bluetooth", at the zero address, without features, devices or
    /// channels; channel identifiers start at 0x40
    pub fn new(id: u32, hci: HciController) -> (r: Self)
        ensures
            r.wf(),
            r@.id == id,
            r@.name == "QuantaOS Bluetooth"@,
            r@.address.0@ == seq![0u8, 0, 0, 0, 0, 0],
            !r@.powered && !r@.discoverable && r@.pairable && !r@.scanning,
            r@.features == (AdapterFeatures { br_edr: false, le: false, ssp: false, secure_connections: false,
                le_extended_advertising: false, le_2m_phy: false, le_coded_phy: false, max_adv_len: 0 }),
            r@.hci == hci@,
            r@.devices == Seq::<DeviceInfoView>::empty(),
            r@.l2cap_channels == Seq::<L2capChannelView>::empty(),
            r@.next_cid == 0x40,
            r@.stats == (AdapterStats { bytes_sent: 0, bytes_received: 0, packets_sent: 0, packets_received: 0,
                connections_established: 0, connections_failed: 0, errors: 0 }),
    {
        let r = BluetoothAdapter {
            id,
            name: String::from_str("QuantaOS Bluetooth"),
            address: BdAddr([0, 0, 0, 0, 0, 0]),
            powered: false,
            discoverable: false,
            pairable: true,
            scanning: false,
            features: AdapterFeatures { br_edr: false, le: false, ssp: false, secure_connections: false,
                le_extended_advertising: false, le_2m_phy: false, le_coded_phy: false, max_adv_len: 0 },
            hci,
            devices: Vec::new(),
            l2cap_channels: Vec::new(),
            next_cid: 0x40,
            stats: AdapterStats { bytes_sent: 0, bytes_received: 0, packets_sent: 0, packets_received: 0,
                connections_established: 0, connections_failed: 0, errors: 0 },
        };
        assert(r@.address.0@ =~= seq![0u8, 0, 0, 0, 0, 0]);
        assert(r@.devices =~= Seq::<DeviceInfoView>::empty());
        assert(r@.l2cap_channels =~= Seq::<L2capChannelView>::empty());
        r
    }

    /// Power on adapter: reset, read the address and features, enable
    /// inquiry and page scan
    pub fn power_on(&mut self) -> (r: Result<(), BluetoothError>)
        ensures
            r is Ok,
            final(self).wf() == old(self).wf(),
            final(self)@ == (BluetoothAdapterView {
                powered: true,
                hci: awaited(awaited(awaited(awaited(old(self)@.hci, HCI_OP_RESET, Seq::empty()),
                    HCI_OP_READ_BD_ADDR, Seq::empty()), HCI_OP_READ_LOCAL_FEATURES, Seq::empty()),
                    HCI_OP_WRITE_SCAN_ENABLE, seq![3u8]),
                ..old(self)@
            }),
    {
        match self.hci.reset() {
            Ok(()) => {},
            Err(e) => return Err(e),
        }
        match self.hci.read_bd_addr() {
            Ok(_addr) => {},
            Err(e) => return Err(e),
        }
        match self.hci.read_local_features() {
            Ok(()) => {},
            Err(e) => return Err(e),
        }
        match self.hci.write_scan_enable(0x03) {
            Ok(()) => {},
            Err(e) => return Err(e),
        }
        self.powered = true;
        Ok(())
    }

    /// Power off adapter
    pub fn power_off(&mut self) -> (r: Result<(), BluetoothError>)
        ensures
            r is Ok,
            final(self).wf() == old(self).wf(),
            final(self)@ == (BluetoothAdapterView { powered: false, ..old(self)@ }),
    {
        self.powered = false;
        Ok(())
    }

    /// Start discovery: a general inquiry of 8 units, unlimited responses;
    /// refused while powered off
    pub fn start_discovery(&mut self) -> (r: Result<(), BluetoothError>)
        ensures
            final(self).wf() == old(self).wf(),
            !old(self)@.powered ==> r == Err::<(), BluetoothError>(BluetoothError::InvalidState) && final(self)@ == old(self)@,
            old(self)@.powered ==> r is Ok && final(self)@ == (BluetoothAdapterView {
                scanning: true,
                hci: queued(old(self)@.hci, HCI_OP_INQUIRY, seq![0x33u8, 0x8Bu8, 0x9Eu8, 8u8, 0u8]),
                ..old(self)@
            }),
    {
        if !self.powered {
            return Err(BluetoothError::InvalidState);
        }
        match self.hci.inquiry(0x9E8B33, 8, 0) {
            Ok(()) => {},
            Err(e) => return Err(e),
        }
        self.scanning = true;
        Ok(())
    }

    /// Stop discovery
    pub fn stop_discovery(&mut self) -> (r: Result<(), BluetoothError>)
        ensures
            r is Ok,
            final(self).wf() == old(self).wf(),
            final(self)@ == (BluetoothAdapterView {
                scanning: false,
                hci: awaited(old(self)@.hci, HCI_OP_INQUIRY_CANCEL, Seq::empty()),
                ..old(self)@
            }),
    {
        match self.hci.inquiry_cancel() {
            Ok(()) => {},
            Err(e) => return Err(e),
        }
        self.scanning = false;
        Ok(())
    }

    /// Start LE scan: active scanning, 10 ms interval and window; refused
    /// while powered off
    pub fn start_le_scan(&mut self) -> (r: Result<(), BluetoothError>)
        ensures
            final(self).wf() == old(self).wf(),
            !old(self)@.powered ==> r == Err::<(), BluetoothError>(BluetoothError::InvalidState) && final(self)@ == old(self)@,
            old(self)@.powered ==> r is Ok && final(self)@ == (BluetoothAdapterView {
                scanning: true,
                hci: awaited(
                    awaited(old(self)@.hci, HCI_OP_LE_SET_SCAN_PARAM, seq![1u8] + le16(0x0010) + le16(0x0010) + seq![0u8, 0u8]),
                    HCI_OP_LE_SET_SCAN_ENABLE,
                    seq![flag_byte(true), flag_byte(false)],
                ),
                ..old(self)@
            }),
    {
        if !self.powered {
            return Err(BluetoothError::InvalidState);
        }
        match self.hci.le_set_scan_parameters(0x01, 0x0010, 0x0010, 0x00, 0x00) {
            Ok(()) => {},
            Err(e) => return Err(e),
        }
        match self.hci.le_set_scan_enable(true, false) {
            Ok(()) => {},
            Err(e) => return Err(e),
        }
        self.scanning = true;
        Ok(())
    }

    /// Stop LE scan
    pub fn stop_le_scan(&mut self) -> (r: Result<(), BluetoothError>)
        ensures
            r is Ok,
            final(self).wf() == old(self).wf(),
            final(self)@ == (BluetoothAdapterView {
                scanning: false,
                hci: awaited(old(self)@.hci, HCI_OP_LE_SET_SCAN_ENABLE, seq![flag_byte(false), flag_byte(false)]),
                ..old(self)@
            }),
    {
        match self.hci.le_set_scan_enable(false, false) {
            Ok(()) => {},
            Err(e) => return Err(e),
        }
        self.scanning = false;
        Ok(())
    }

    /// Connect to device: the controller's connection handle is returned and
    /// the connection counted; refused while powered off
    pub fn connect(&mut self, address: &BdAddr) -> (r: Result<u16, BluetoothError>)
        ensures
            final(self).wf() == old(self).wf(),
            !old(self)@.powered ==> r == Err::<u16, BluetoothError>(BluetoothError::InvalidState) && final(self)@ == old(self)@,
            old(self)@.powered ==> r == Ok::<u16, BluetoothError>(old(self)@.hci.next_handle) && final(self)@ == (BluetoothAdapterView {
                hci: HciControllerView {
                    next_handle: old(self)@.hci.next_handle.wrapping_add(1),
                    ..queued(old(self)@.hci, HCI_OP_CREATE_CONN, address.0@ + le16(0xCC18) + seq![0x02u8, 0u8] + le16(0) + seq![1u8])
                },
                stats: AdapterStats { connections_established: old(self)@.stats.connections_established.wrapping_add(1), ..old(self)@.stats },
                ..old(self)@
            }),
    {
        if !self.powered {
            return Err(BluetoothError::InvalidState);
        }
        let handle = match self.hci.create_connection(address) {
            Ok(h) => h,
            Err(e) => return Err(e),
        };
        self.stats.connections_established = self.stats.connections_established.wrapping_add(1);
        Ok(handle)
    }

    /// Connect to LE device: as `connect`, with an LE connection
    pub fn le_connect(&mut self, address: &BdAddr, address_type: AddressType) -> (r: Result<u16, BluetoothError>)
        ensures
            final(self).wf() == old(self).wf(),
            !old(self)@.powered ==> r == Err::<u16, BluetoothError>(BluetoothError::InvalidState) && final(self)@ == old(self)@,
            old(self)@.powered ==> r == Ok::<u16, BluetoothError>(old(self)@.hci.next_handle) && final(self)@ == (BluetoothAdapterView {
                hci: HciControllerView {
                    next_handle: old(self)@.hci.next_handle.wrapping_add(1),
                    ..queued(
                        old(self)@.hci,
                        HCI_OP_LE_CREATE_CONN,
                        le16(0x0010) + le16(0x0010) + seq![0u8, address_type_code(address_type)] + address.0@ + seq![0u8]
                            + le16(0x0006) + le16(0x000C) + le16(0) + le16(0x00C8) + le16(0) + le16(0),
                    )
                },
                stats: AdapterStats { connections_established: old(self)@.stats.connections_established.wrapping_add(1), ..old(self)@.stats },
                ..old(self)@
            }),
    {
        if !self.powered {
            return Err(BluetoothError::InvalidState);
        }
        let handle = match self.hci.le_create_connection(address, address_type) {
            Ok(h) => h,
            Err(e) => return Err(e),
        };
        self.stats.connections_established = self.stats.connections_established.wrapping_add(1);
        Ok(handle)
    }

    /// Disconnect, with reason "remote user terminated connection"
    pub fn disconnect(&mut self, handle: u16) -> (r: Result<(), BluetoothError>)
        ensures
            r is Ok,
            final(self).wf() == old(self).wf(),
            final(self)@ == with_hci(old(self)@, queued(old(self)@.hci, HCI_OP_DISCONNECT, le16(handle) + seq![0x13u8])),
    {
        match self.hci.disconnect(handle, 0x13) {
            Ok(()) => {},
            Err(e) => return Err(e),
        }
        Ok(())
    }

    fn find_device(&self, address: &BdAddr) -> (r: Option<usize>)
        ensures
            match r {
                Some(i) => i == find_info(self@.devices, addr_order(address.0@)) && i < self@.devices.len(),
                None => find_info(self@.devices, addr_order(address.0@)) < 0,
            },
    {
        let k = addr_order_of(address);
        proof {
            lemma_find_info(self@.devices, k as nat);
        }
        let mut i: usize = self.devices.len();
        assert(self@.devices.take(i as int) =~= self@.devices);
        while i > 0
            invariant
                i <= self.devices@.len(),
                self@.devices.len() == self.devices@.len(),
                k == addr_order(address.0@),
                find_info(self@.devices, k as nat) == find_info(self@.devices.take(i as int), k as nat),
            decreases i,
        {
            assert(self@.devices.take(i as int).drop_last() =~= self@.devices.take(i - 1));
            assert(self@.devices[i - 1] == self.devices@[i - 1]@);
            if addr_order_of(&self.devices[i - 1].address) == k {
                return Some(i - 1);
            }
            i = i - 1;
        }
        None
    }

    /// Get device info
    pub fn get_device(&self, address: &BdAddr) -> (r: Option<&DeviceInfo>)
        ensures
            ({
                let i = find_info(self@.devices, addr_order(address.0@));
                match r {
                    Some(d) => i >= 0 && d@ == self@.devices[i],
                    None => i < 0,
                }
            }),
    {
        match self.find_device(address) {
            Some(i) => Some(&self.devices[i]),
            None => None,
        }
    }

    /// Get all devices, by ascending address
    pub fn get_devices(&self) -> (r: Vec<&DeviceInfo>)
        ensures
            r@.map_values(|d: &DeviceInfo| d@) == self@.devices,
    {
        let mut out: Vec<&DeviceInfo> = Vec::new();
        let mut i: usize = 0;
        while i < self.devices.len()
            invariant
                i <= self.devices@.len(),
                out@.map_values(|d: &DeviceInfo| d@) == self@.devices.take(i as int),
            decreases self.devices@.len() - i,
        {
            let ghost before = out@.map_values(|d: &DeviceInfo| d@);
            assert(self@.devices[i as int] == self.devices@[i as int]@);
            out.push(&self.devices[i]);
            assert(out@.map_values(|d: &DeviceInfo| d@) =~= before.push(self@.devices[i as int]));
            assert(self@.devices.take(i + 1) =~= self@.devices.take(i as int).push(self@.devices[i as int]));
            i = i + 1;
        }
        assert(self@.devices.take(i as int) =~= self@.devices);
        out
    }

    /// Put a device record in under its address, replacing one there.
    fn put_device(&mut self, device: DeviceInfo)
        requires
            old(self).wf(),
        ensures
            final(self)@ == (BluetoothAdapterView { devices: insert_info(old(self)@.devices, device@), ..old(self)@ }),
            final(self).wf(),
    {
        proof {
            lemma_insert_info_sorted(self@.devices, device@);
            lemma_info_lower_bound(self@.devices, addr_order(device@.address));
        }
        let ghost dv = device@;
        let k = addr_order_of(&device.address);
        match self.find_device(&device.address) {
            Some(i) => {
                let _ = self.devices.remove(i);
                self.devices.insert(i, device);
                assert(self@.devices =~= old(self)@.devices.update(i as int, dv));
            },
            None => {
                let mut p: usize = self.devices.len();
                while p > 0 && addr_order_of(&self.devices[p - 1].address) >= k
                    invariant
                        p <= self.devices@.len(),
                        self@ == old(self)@,
                        infos_sorted(self@.devices),
                        k == addr_order(dv.address),
                        info_lower_bound(self@.devices, k as nat) <= p,
                    decreases p,
                {
                    proof {
                        lemma_info_lower_bound(self@.devices, k as nat);
                        assert(self@.devices[p - 1] == self.devices@[p - 1]@);
                        assert(addr_order(self@.devices[p - 1].address) >= k);
                    }
                    p = p - 1;
                }
                proof {
                    lemma_info_lower_bound(self@.devices, k as nat);
                    if p > 0 {
                        assert(self@.devices[p - 1] == self.devices@[p - 1]@);
                        assert(addr_order(self@.devices[p - 1].address) < k);
                    }
                }
                assert(p == info_lower_bound(self@.devices, k as nat));
                self.devices.insert(p, device);
                assert(self@.devices =~= old(self)@.devices.insert(p as int, dv));
            },
        }
    }

    /// Add or update device
    pub fn update_device(&mut self, info: DeviceInfo)
        requires
            old(self).wf(),
        ensures
            final(self).wf(),
            final(self)@ == (BluetoothAdapterView { devices: insert_info(old(self)@.devices, info@), ..old(self)@ }),
    {
        self.put_device(info);
    }

    /// Remove device: whether it was known
    pub fn remove_device(&mut self, address: &BdAddr) -> (r: bool)
        requires
            old(self).wf(),
        ensures
            final(self).wf(),
            ({
                let i = find_info(old(self)@.devices, addr_order(address.0@));
                &&& r == (i >= 0)
                &&& final(self)@ == if i >= 0 { BluetoothAdapterView { devices: old(self)@.devices.remove(i), ..old(self)@ } } else { old(self)@ }
            }),
    {
        match self.find_device(address) {
            Some(i) => {
                proof {
                    lemma_remove_info_sorted(self@.devices, i as int);
                }
                let _ = self.devices.remove(i);
                assert(self@.devices =~= old(self)@.devices.remove(i as int));
                true
            },
            None => false,
        }
    }

    /// Pair with device: a known device is marked paired
    pub fn pair(&mut self, address: &BdAddr) -> (r: Result<(), BluetoothError>)
        requires
            old(self).wf(),
        ensures
            final(self).wf(),
            ({
                let i = find_info(old(self)@.devices, addr_order(address.0@));
                if i < 0 {
                    r == Err::<(), BluetoothError>(BluetoothError::DeviceNotFound) && final(self)@ == old(self)@
                } else {
                    r is Ok && final(self)@ == (BluetoothAdapterView {
                        devices: old(self)@.devices.update(i, DeviceInfoView { paired: true, ..old(self)@.devices[i] }),
                        ..old(self)@
                    })
                }
            }),
    {
        match self.find_device(address) {
            Some(i) => {
                let mut d = self.devices.remove(i);
                d.paired = true;
                let ghost dv = d@;
                self.devices.insert(i, d);
                assert(self@.devices =~= old(self)@.devices.update(i as int, dv));
                assert forall|a: int, b: int| 0 <= a < b < self@.devices.len() implies
                    #[trigger] addr_order(self@.devices[a].address) < #[trigger] addr_order(self@.devices[b].address) by {
                    assert(self@.devices[a].address == old(self)@.devices[a].address);
                    assert(self@.devices[b].address == old(self)@.devices[b].address);
                }
                Ok(())
            },
            None => Err(BluetoothError::DeviceNotFound),
        }
    }

    /// Allocate L2CAP CID: the counter's low 16 bits (the counter wraps)
    pub fn alloc_cid(&mut self) -> (r: u16)
        ensures
            r == old(self)@.next_cid % 65536,
            final(self).wf() == old(self).wf(),
            final(self)@ == (BluetoothAdapterView { next_cid: old(self)@.next_cid.wrapping_add(1), ..old(self)@ }),
    {
        let c = self.next_cid;
        self.next_cid = self.next_cid.wrapping_add(1);
        (c % 65536) as u16
    }

    /// Create L2CAP channel: a new channel with the next CID is kept; its
    /// CID is returned
    pub fn create_l2cap_channel(&mut self, handle: u16, psm: u16, is_le: bool) -> (r: Result<u16, BluetoothError>)
        ensures
            r == Ok::<u16, BluetoothError>((old(self)@.next_cid % 65536) as u16),
            final(self).wf() == old(self).wf(),
            final(self)@ == (BluetoothAdapterView {
                next_cid: old(self)@.next_cid.wrapping_add(1),
                l2cap_channels: old(self)@.l2cap_channels.push(new_channel_view((old(self)@.next_cid % 65536) as u16, handle, psm, is_le)),
                ..old(self)@
            }),
    {
        let scid = self.alloc_cid();
        let channel = L2capChannel::new(scid, handle, psm, is_le);
        let ghost cv = channel@;
        let ghost before = self@;
        self.l2cap_channels.push(channel);
        assert(self@.l2cap_channels =~= before.l2cap_channels.push(cv));
        Ok(scid)
    }
}

impl BluetoothAdapter {
    /// Record the device that the inquiry response at `off` reports
    fn record_inquiry_response(&mut self, p: &[u8], off: usize, now: u64)
        requires
            old(self).wf(),
            off + 14 <= p@.len(),
        ensures
            final(self).wf(),
            final(self)@ == (BluetoothAdapterView { devices: insert_info(old(self)@.devices, inquiry_info(p@, off as int, now)), ..old(self)@ }),
    {
        let addr: [u8; 6] = [p[off], p[off + 1], p[off + 2], p[off + 3], p[off + 4], p[off + 5]];
        let class_bits: u32 = p[off + 9] as u32 + 256 * (p[off + 10] as u32) + 65536 * (p[off + 11] as u32);
        let info = DeviceInfo {
            address: BdAddr(addr),
            address_type: AddressType::BrEdr,
            name: String::new(),
            class: DeviceClass(class_bits),
            paired: false,
            connected: false,
            trusted: false,
            blocked: false,
            rssi: 0,
            tx_power: 0,
            manufacturer_data: Vec::new(),
            service_uuids: Vec::new(),
            service_data: Vec::new(),
            last_seen: now,
        };
        assert(info@.address =~= p@.subrange(off as int, off + 6));
        assert(info@.manufacturer_data =~= Seq::<(u16, Seq<u8>)>::empty());
        assert(info@.service_data =~= Seq::<(Uuid, Seq<u8>)>::empty());
        assert(info@ == inquiry_info(p@, off as int, now));
        self.put_device(info);
    }

    /// Mark the device at address `a` connected, if it is known
    fn mark_device_connected(&mut self, a: &BdAddr)
        requires
            old(self).wf(),
        ensures
            final(self).wf(),
            final(self)@ == (BluetoothAdapterView { devices: mark_connected(old(self)@.devices, a.0@), ..old(self)@ }),
    {
        match self.find_device(a) {
            Some(i) => {
                let mut d = self.devices.remove(i);
                d.connected = true;
                let ghost dv = d@;
                self.devices.insert(i, d);
                assert(self@.devices =~= old(self)@.devices.update(i as int, dv));
                assert forall|x: int, y: int| 0 <= x < y < self@.devices.len() implies
                    #[trigger] addr_order(self@.devices[x].address) < #[trigger] addr_order(self@.devices[y].address) by {
                    assert(self@.devices[x].address == old(self)@.devices[x].address);
                    assert(self@.devices[y].address == old(self)@.devices[y].address);
                }
            },
            None => {},
        }
    }

    /// Handle HCI event at time `now`: an inquiry result records the devices
    /// it reports (seen at `now`), a successful connection complete marks
    /// its device connected
    pub fn handle_event(&mut self, event: &HciEvent, now: u64)
        requires
            old(self).wf(),
        ensures
            final(self).wf(),
            final(self)@ == (BluetoothAdapterView {
                devices: devices_after_event(old(self)@.devices, event.code, event.params@, now),
                ..old(self)@
            }),
    {
        let p = event.params.as_slice();
        match event.event_code() {
            Some(HciEventCode::InquiryResult) => {
                if p.len() >= 14 {
                    let n = p[0] as usize;
                    let mut i: usize = 0;
                    while i < n
                        invariant
                            self.wf(),
                            i <= n,
                            n == p@[0],
                            p@ == event.params@,
                            self@ == (BluetoothAdapterView { devices: after_inquiry(old(self)@.devices, p@, now, i as nat), ..old(self)@ }),
                        decreases n - i,
                    {
                        let off = 1 + i * 14;
                        if off + 14 <= p.len() {
                            self.record_inquiry_response(p, off, now);
                        }
                        i = i + 1;
                    }
                }
            },
            Some(HciEventCode::ConnectionComplete) => {
                if p.len() >= 11 {
                    let status = p[0];
                    if status == 0 {
                        let addr: [u8; 6] = [p[3], p[4], p[5], p[6], p[7], p[8]];
                        let a = BdAddr(addr);
                        assert(a.0@ =~= p@.subrange(3, 9));
                        self.mark_device_connected(&a);
                    }
                }
            },
            _ => {},
        }
    }
}

/// Index of the adapter with id `id`, or -1.
pub open spec fn find_adapter(s: Seq<BluetoothAdapterView>, id: u32) -> int
    decreases s.len(),
{
    if s.len() == 0 {
        -1
    } else if s.last().id == id {
        s.len() - 1
    } else {
        find_adapter(s.drop_last(), id)
    }
}

/// Index of the first adapter whose id is not below `id`.
pub open spec fn adapter_lower_bound(s: Seq<BluetoothAdapterView>, id: u32) -> int
    decreases s.len(),
{
    if s.len() == 0 || s.last().id < id {
        s.len() as int
    } else {
        adapter_lower_bound(s.drop_last(), id)
    }
}

/// The adapter ids rise strictly.
pub open spec fn ids_sorted(s: Seq<BluetoothAdapterView>) -> bool {
    forall|i: int, j: int| 0 <= i < j < s.len() ==> #[trigger] s[i].id < #[trigger] s[j].id
}

/// The adapters with `a` put in under its id, replacing one there.
pub open spec fn insert_adapter(s: Seq<BluetoothAdapterView>, a: BluetoothAdapterView) -> Seq<BluetoothAdapterView> {
    let i = find_adapter(s, a.id);
    if i >= 0 { s.update(i, a) } else { s.insert(adapter_lower_bound(s, a.id), a) }
}

proof fn lemma_find_adapter(s: Seq<BluetoothAdapterView>, id: u32)
    ensures
        -1 <= find_adapter(s, id) < s.len(),
        find_adapter(s, id) >= 0 ==> s[find_adapter(s, id)].id == id,
        find_adapter(s, id) < 0 ==> forall|m: int| 0 <= m < s.len() ==> (#[trigger] s[m]).id != id,
    decreases s.len(),
{
    if s.len() > 0 && s.last().id != id {
        lemma_find_adapter(s.drop_last(), id);
        assert forall|m: int| 0 <= m < s.len() - 1 implies #[trigger] s[m] == s.drop_last()[m] by {}
    }
}

proof fn lemma_adapter_lower_bound(s: Seq<BluetoothAdapterView>, id: u32)
    requires
        ids_sorted(s),
    ensures
        0 <= adapter_lower_bound(s, id) <= s.len(),
        forall|m: int| 0 <= m < adapter_lower_bound(s, id) ==> (#[trigger] s[m]).id < id,
        forall|m: int| adapter_lower_bound(s, id) <= m < s.len() ==> (#[trigger] s[m]).id >= id,
    decreases s.len(),
{
    if s.len() > 0 && s.last().id >= id {
        assert(ids_sorted(s.drop_last()));
        lemma_adapter_lower_bound(s.drop_last(), id);
        assert forall|m: int| 0 <= m < adapter_lower_bound(s, id) implies (#[trigger] s[m]).id < id by {
            assert(s[m] == s.drop_last()[m]);
        }
        assert forall|m: int| adapter_lower_bound(s, id) <= m < s.len() implies (#[trigger] s[m]).id >= id by {
            if m < s.len() - 1 {
                assert(s[m] == s.drop_last()[m]);
            }
        }
    } else if s.len() > 0 {
        assert forall|m: int| 0 <= m < s.len() implies (#[trigger] s[m]).id < id by {
            if m < s.len() - 1 {
                assert(s[m].id < s.last().id);
            }
        }
    }
}

proof fn lemma_insert_adapter_sorted(s: Seq<BluetoothAdapterView>, a: BluetoothAdapterView)
    requires
        ids_sorted(s),
    ensures
        ids_sorted(insert_adapter(s, a)),
{
    lemma_find_adapter(s, a.id);
    lemma_adapter_lower_bound(s, a.id);
    let r = insert_adapter(s, a);
    if find_adapter(s, a.id) < 0 {
        let p = adapter_lower_bound(s, a.id);
        assert forall|i: int, j: int| 0 <= i < j < r.len() implies #[trigger] r[i].id < #[trigger] r[j].id by {
            if j < p {
            } else if j == p {
            } else if i < p {
                assert(r[j] == s[j - 1]);
            } else if i == p {
                assert(r[j] == s[j - 1]);
            } else {
                assert(r[i] == s[i - 1] && r[j] == s[j - 1]);
            }
        }
    } else {
        assert forall|i: int, j: int| 0 <= i < j < r.len() implies #[trigger] r[i].id < #[trigger] r[j].id by {
            assert(r[i].id == s[i].id);
            assert(r[j].id == s[j].id);
        }
    }
}

/// An adapter put in under its id is the one found under that id.
pub proof fn lemma_register_then_get(s: Seq<BluetoothAdapterView>, a: BluetoothAdapterView)
    requires
        ids_sorted(s),
    ensures
        find_adapter(insert_adapter(s, a), a.id) >= 0,
        insert_adapter(s, a)[find_adapter(insert_adapter(s, a), a.id)] == a,
{
    lemma_insert_adapter_sorted(s, a);
    lemma_find_adapter(s, a.id);
    lemma_adapter_lower_bound(s, a.id);
    let r = insert_adapter(s, a);
    lemma_find_adapter(r, a.id);
    let p = if find_adapter(s, a.id) >= 0 { find_adapter(s, a.id) } else { adapter_lower_bound(s, a.id) };
    assert(r[p] == a);
    let f = find_adapter(r, a.id);
    if f != p {
        if f < p {
            assert(r[f].id < r[p].id);
        } else {
            assert(r[p].id < r[f].id);
        }
    }
}

/// What the subsystem holds.
pub struct BluetoothSubsystemView {
    pub initialized: bool,
    /// Registered adapters, by ascending id
    pub adapters: Seq<BluetoothAdapterView>,
    pub next_adapter_id: u32,
    pub default_adapter: u32,
}

/// Bluetooth subsystem
pub struct BluetoothSubsystem {
    initialized: bool,
    adapters: Vec<BluetoothAdapter>,
    next_adapter_id: u32,
    default_adapter: u32,
}

impl View for BluetoothSubsystem {
    type V = BluetoothSubsystemView;

    closed spec fn view(&self) -> BluetoothSubsystemView {
        BluetoothSubsystemView {
            initialized: self.initialized,
            adapters: self.adapters@.map_values(|a: BluetoothAdapter| a@),
            next_adapter_id: self.next_adapter_id,
            default_adapter: self.default_adapter,
        }
    }
}

/// The adapter with the id changed.
pub open spec fn with_id(a: BluetoothAdapterView, id: u32) -> BluetoothAdapterView {
    BluetoothAdapterView { id, ..a }
}

impl BluetoothSubsystem {
    /// The subsystem's invariant: one adapter per id, by ascending id.
    pub closed spec fn wf(&self) -> bool {
        ids_sorted(self@.adapters)
    }

    /// Create new subsystem
    pub fn new() -> (r: Self)
        ensures
            r.wf(),
            r@ == (BluetoothSubsystemView { initialized: false, adapters: Seq::empty(), next_adapter_id: 0, default_adapter: 0 }),
    {
        let r = BluetoothSubsystem { initialized: false, adapters: Vec::new(), next_adapter_id: 0, default_adapter: 0 };
        assert(r@.adapters =~= Seq::<BluetoothAdapterView>::empty());
        r
    }

    /// Probe USB for Bluetooth dongles (no USB controller is reachable)
    fn probe_usb_controllers(&self) {
    }

    /// Probe PCI for Bluetooth controllers (no PCI controller is reachable)
    fn probe_pci_controllers(&self) {
    }

    /// Initialize
    pub fn init(&mut self) -> (r: Result<(), BluetoothError>)
        ensures
            r is Ok,
            final(self).wf() == old(self).wf(),
            final(self)@ == (BluetoothSubsystemView { initialized: true, ..old(self)@ }),
    {
        self.probe_usb_controllers();
        self.probe_pci_controllers();
        self.initialized = true;
        Ok(())
    }

    fn find(&self, id: u32) -> (r: Option<usize>)
        ensures
            match r {
                Some(i) => i == find_adapter(self@.adapters, id) && i < self@.adapters.len(),
                None => find_adapter(self@.adapters, id) < 0,
            },
    {
        proof {
            lemma_find_adapter(self@.adapters, id);
        }
        let mut i: usize = self.adapters.len();
        assert(self@.adapters.take(i as int) =~= self@.adapters);
        while i > 0
            invariant
                i <= self.adapters@.len(),
                self@.adapters.len() == self.adapters@.len(),
                find_adapter(self@.adapters, id) == find_adapter(self@.adapters.take(i as int), id),
            decreases i,
        {
            assert(self@.adapters.take(i as int).drop_last() =~= self@.adapters.take(i - 1));
            assert(self@.adapters[i - 1] == self.adapters@[i - 1]@);
            if self.adapters[i - 1].id == id {
                return Some(i - 1);
            }
            i = i - 1;
        }
        None
    }

    /// Register adapter: it gets the next id (the counter wraps) and takes
    /// that id's place; the id is returned
    pub fn register_adapter(&mut self, adapter: BluetoothAdapter) -> (r: u32)
        requires
            old(self).wf(),
        ensures
            final(self).wf(),
            r == old(self)@.next_adapter_id,
            final(self)@ == (BluetoothSubsystemView {
                adapters: insert_adapter(old(self)@.adapters, with_id(adapter@, r)),
                next_adapter_id: old(self)@.next_adapter_id.wrapping_add(1),
                default_adapter: if r == 0 { 0 } else { old(self)@.default_adapter },
                ..old(self)@
            }),
    {
        let mut adapter = adapter;
        let id = self.next_adapter_id;
        self.next_adapter_id = self.next_adapter_id.wrapping_add(1);
        adapter.id = id;
        let ghost av = adapter@;
        let ghost v0 = self@;
        proof {
            lemma_insert_adapter_sorted(v0.adapters, av);
            lemma_adapter_lower_bound(v0.adapters, id);
        }
        match self.find(id) {
            Some(i) => {
                let _ = self.adapters.remove(i);
                self.adapters.insert(i, adapter);
                assert(self@.adapters =~= v0.adapters.update(i as int, av));
            },
            None => {
                let mut p: usize = self.adapters.len();
                while p > 0 && self.adapters[p - 1].id >= id
                    invariant
                        p <= self.adapters@.len(),
                        self@ == v0,
                        ids_sorted(self@.adapters),
                        adapter_lower_bound(self@.adapters, id) <= p,
                    decreases p,
                {
                    proof {
                        lemma_adapter_lower_bound(self@.adapters, id);
                        assert(self@.adapters[p - 1] == self.adapters@[p - 1]@);
                    }
                    p = p - 1;
                }
                proof {
                    lemma_adapter_lower_bound(self@.adapters, id);
                    if p > 0 {
                        assert(self@.adapters[p - 1] == self.adapters@[p - 1]@);
                    }
                }
                assert(p == adapter_lower_bound(self@.adapters, id));
                self.adapters.insert(p, adapter);
                assert(self@.adapters =~= v0.adapters.insert(p as int, av));
            },
        }
        if id == 0 {
            self.default_adapter = 0;
        }
        id
    }

    /// Unregister adapter
    pub fn unregister_adapter(&mut self, id: u32)
        requires
            old(self).wf(),
        ensures
            final(self).wf(),
            ({
                let i = find_adapter(old(self)@.adapters, id);
                final(self)@ == if i >= 0 { BluetoothSubsystemView { adapters: old(self)@.adapters.remove(i), ..old(self)@ } } else { old(self)@ }
            }),
    {
        match self.find(id) {
            Some(i) => {
                let _ = self.adapters.remove(i);
                assert(self@.adapters =~= old(self)@.adapters.remove(i as int));
                assert forall|a: int, b: int| 0 <= a < b < self@.adapters.len() implies #[trigger] self@.adapters[a].id < #[trigger] self@.adapters[b].id by {
                    let a2 = if a < i { a } else { a + 1 };
                    let b2 = if b < i { b } else { b + 1 };
                    assert(self@.adapters[a] == old(self)@.adapters[a2] && self@.adapters[b] == old(self)@.adapters[b2]);
                }
            },
            None => {},
        }
    }

    /// Get adapter
    pub fn get_adapter(&self, id: u32) -> (r: Option<&BluetoothAdapter>)
        ensures
            ({
                let i = find_adapter(self@.adapters, id);
                match r {
                    Some(a) => i >= 0 && a@ == self@.adapters[i],
                    None => i < 0,
                }
            }),
    {
        match self.find(id) {
            Some(i) => Some(&self.adapters[i]),
            None => None,
        }
    }

    /// Get default adapter
    pub fn get_default_adapter(&self) -> (r: Option<&BluetoothAdapter>)
        ensures
            ({
                let i = find_adapter(self@.adapters, self@.default_adapter);
                match r {
                    Some(a) => i >= 0 && a@ == self@.adapters[i],
                    None => i < 0,
                }
            }),
    {
        self.get_adapter(self.default_adapter)
    }

    /// Get all adapters, by ascending id
    pub fn get_adapters(&self) -> (r: Vec<&BluetoothAdapter>)
        ensures
            r@.map_values(|a: &BluetoothAdapter| a@) == self@.adapters,
    {
        let mut out: Vec<&BluetoothAdapter> = Vec::new();
        let mut i: usize = 0;
        while i < self.adapters.len()
            invariant
                i <= self.adapters@.len(),
                out@.map_values(|a: &BluetoothAdapter| a@) == self@.adapters.take(i as int),
            decreases self.adapters@.len() - i,
        {
            let ghost before = out@.map_values(|a: &BluetoothAdapter| a@);
            assert(self@.adapters[i as int] == self.adapters@[i as int]@);
            out.push(&self.adapters[i]);
            assert(out@.map_values(|a: &BluetoothAdapter| a@) =~= before.push(self@.adapters[i as int]));
            assert(self@.adapters.take(i + 1) =~= self@.adapters.take(i as int).push(self@.adapters[i as int]));
            i = i + 1;
        }
        assert(self@.adapters.take(i as int) =~= self@.adapters);
        out
    }

    /// Adapter count
    pub fn adapter_count(&self) -> (r: usize)
        ensures
            r == self@.adapters.len(),
    {
        self.adapters.len()
    }
}

/// Get adapter of the subsystem `bt`
pub fn get_adapter(bt: &BluetoothSubsystem, id: u32) -> (r: Option<&BluetoothAdapter>)
    ensures
        ({
            let i = find_adapter(bt@.adapters, id);
            match r {
                Some(a) => i >= 0 && a@ == bt@.adapters[i],
                None => i < 0,
            }
        }),
{
    bt.get_adapter(id)
}

/// Get default adapter of the subsystem `bt`
pub fn get_default_adapter(bt: &BluetoothSubsystem) -> (r: Option<&BluetoothAdapter>)
    ensures
        ({
            let i = find_adapter(bt@.adapters, bt@.default_adapter);
            match r {
                Some(a) => i >= 0 && a@ == bt@.adapters[i],
                None => i < 0,
            }
        }),
{
    bt.get_default_adapter()
}

/// Adapter count of the subsystem `bt`
pub fn adapter_count(bt: &BluetoothSubsystem) -> (r: usize)
    ensures
        r == bt@.adapters.len(),
{
    bt.adapter_count()
}

/// Register adapter with the subsystem `bt`
pub fn register_adapter(bt: &mut BluetoothSubsystem, adapter: BluetoothAdapter) -> (r: u32)
    requires
        old(bt).wf(),
    ensures
        final(bt).wf(),
        r == old(bt)@.next_adapter_id,
        final(bt)@ == (BluetoothSubsystemView {
            adapters: insert_adapter(old(bt)@.adapters, with_id(adapter@, r)),
            next_adapter_id: old(bt)@.next_adapter_id.wrapping_add(1),
            default_adapter: if r == 0 { 0 } else { old(bt)@.default_adapter },
            ..old(bt)@
        }),
{
    bt.register_adapter(adapter)
}

} // verus!
