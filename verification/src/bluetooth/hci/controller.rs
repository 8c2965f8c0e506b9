//! The HCI controller: the commands queued for the hardware, the command
//! awaiting completion, and the connections that events open and close.
use vstd::prelude::*;
use std::collections::VecDeque;
use super::{address_type_code, status_from_byte, AclPacket, ConnectionRole, ConnectionState, HciBufferInfo, HciCommand, HciConnection, HciEvent, HciEventCode, HciFeatures, HciState, HciStatus, HciTransport, HciVersion, LeFeatures, LinkType, HCI_OP_CREATE_CONN, HCI_OP_DISCONNECT, HCI_OP_INQUIRY, HCI_OP_INQUIRY_CANCEL, HCI_OP_LE_CREATE_CONN, HCI_OP_LE_SET_SCAN_ENABLE, HCI_OP_LE_SET_SCAN_PARAM, HCI_OP_READ_BD_ADDR, HCI_OP_READ_LOCAL_FEATURES, HCI_OP_READ_LOCAL_VERSION, HCI_OP_RESET, HCI_OP_SET_EVENT_MASK, HCI_OP_WRITE_SCAN_ENABLE};
use crate::bluetooth::{AddressType, BdAddr, BluetoothError};
use crate::wire::{from_le16, le16};

verus! {

/// What the controller holds.
pub struct HciControllerView {
    pub state: HciState,
    pub address: BdAddr,
    pub features: HciFeatures,
    /// Queued commands (opcode, parameters), oldest first
    pub commands: Seq<(u16, Seq<u8>)>,
    /// Opcode of the command awaiting completion (0 for none)
    pub pending_cmd: u16,
    /// The completion event of the last awaited command (code, parameters)
    pub pending_response: Option<(u8, Seq<u8>)>,
    pub connections: Seq<HciConnection>,
    pub next_handle: u16,
    /// Tokens of the registered event handlers, in registration order
    pub handlers: Seq<u32>,
}

/// HCI controller
pub struct HciController {
    /// Transport type
    pub transport: HciTransport,
    state: HciState,
    address: BdAddr,
    /// Local name
    pub name: String,
    /// Version info
    pub version: HciVersion,
    features: HciFeatures,
    /// LE features
    pub le_features: LeFeatures,
    /// Buffer info
    pub buffer_info: HciBufferInfo,
    cmd_queue: VecDeque<HciCommand>,
    pending_cmd: u16,
    pending_response: Option<HciEvent>,
    connections: Vec<HciConnection>,
    next_handle: u16,
    event_handlers: Vec<u32>,
}

impl View for HciController {
    type V = HciControllerView;

    closed spec fn view(&self) -> HciControllerView {
        HciControllerView {
            state: self.state,
            address: self.address,
            features: self.features,
            commands: self.cmd_queue@.map_values(|c: HciCommand| (c.opcode, c.params@)),
            pending_cmd: self.pending_cmd,
            pending_response: match self.pending_response {
                Some(e) => Some((e.code, e.params@)),
                None => None,
            },
            connections: self.connections@,
            next_handle: self.next_handle,
            handlers: self.event_handlers@,
        }
    }
}

/// The controller with a command queued.
pub open spec fn queued(v: HciControllerView, opcode: u16, params: Seq<u8>) -> HciControllerView {
    HciControllerView { commands: v.commands.push((opcode, params)), ..v }
}

/// The controller with a command queued and awaited.
pub open spec fn awaited(v: HciControllerView, opcode: u16, params: Seq<u8>) -> HciControllerView {
    HciControllerView { pending_cmd: opcode, ..queued(v, opcode, params) }
}

/// Whether a Connection Complete event with parameters `p` reports a
/// new connection.
pub open spec fn complete_ok(p: Seq<u8>) -> bool {
    p.len() >= 11 && status_from_byte(p[0]) == HciStatus::Success
}

/// Whether `c` is the connection such an event reports: its handle and
/// address, SCO for link type 0 and ACL otherwise, encrypted unless the
/// encryption byte is 0, as master.
pub open spec fn from_complete(c: HciConnection, p: Seq<u8>) -> bool {
    &&& c.handle == from_le16(p[1], p[2])
    &&& c.address.0@ == p.subrange(3, 9)
    &&& c.link_type == if p[9] == 0 { LinkType::Sco } else { LinkType::Acl }
    &&& c.encrypted == (p[10] != 0)
    &&& c.role == ConnectionRole::Master
    &&& c.state == ConnectionState::Connected
}

/// Whether an LE Meta event with parameters `p` reports a new connection
/// (LE Connection Complete or its enhanced form).
pub open spec fn le_complete_ok(p: Seq<u8>) -> bool {
    p.len() >= 19 && (p[0] == 0x01 || p[0] == 0x0A) && status_from_byte(p[1]) == HciStatus::Success
}

/// Whether `c` is the connection such an event reports: its handle and
/// address, an unencrypted LE link, master for role 0 and slave otherwise.
pub open spec fn from_le_complete(c: HciConnection, p: Seq<u8>) -> bool {
    &&& c.handle == from_le16(p[2], p[3])
    &&& c.address.0@ == p.subrange(6, 12)
    &&& c.link_type == LinkType::Le
    &&& !c.encrypted
    &&& c.role == if p[4] == 0 { ConnectionRole::Master } else { ConnectionRole::Slave }
    &&& c.state == ConnectionState::Connected
}

/// The connections other than those with handle `h`, in order.
pub open spec fn without_handle(s: Seq<HciConnection>, h: u16) -> Seq<HciConnection>
    decreases s.len(),
{
    if s.len() == 0 {
        s
    } else if s.last().handle == h {
        without_handle(s.drop_last(), h)
    } else {
        without_handle(s.drop_last(), h).push(s.last())
    }
}

/// Whether `new` is `old` with one connection appended that satisfies the
/// event's description.
pub open spec fn appended_conn(old: Seq<HciConnection>, new: Seq<HciConnection>, p: Seq<u8>, le: bool) -> bool {
    new.len() == old.len() + 1 && new.drop_last() == old && if le {
        from_le_complete(new.last(), p)
    } else {
        from_complete(new.last(), p)
    }
}

/// Whether `new` holds the connections after event `code` with parameters
/// `p`: a connection complete adds one, a disconnection complete removes
/// those with its handle; failures and other events change nothing.
pub open spec fn connections_after(old: Seq<HciConnection>, new: Seq<HciConnection>, code: u8, p: Seq<u8>) -> bool {
    if code == 0x03 && complete_ok(p) {
        appended_conn(old, new, p, false)
    } else if code == 0x05 && p.len() >= 4 && status_from_byte(p[0]) == HciStatus::Success {
        new == without_handle(old, from_le16(p[1], p[2]))
    } else if code == 0x3E && le_complete_ok(p) {
        appended_conn(old, new, p, true)
    } else {
        new == old
    }
}

/// The first connection with handle `h`, if any.
pub open spec fn conn_by_handle(s: Seq<HciConnection>, h: u16) -> Option<HciConnection>
    decreases s.len(),
{
    if s.len() == 0 {
        None
    } else if s[0].handle == h {
        Some(s[0])
    } else {
        conn_by_handle(s.drop_first(), h)
    }
}

/// The first connection with address `a`, if any.
pub open spec fn conn_by_addr(s: Seq<HciConnection>, a: Seq<u8>) -> Option<HciConnection>
    decreases s.len(),
{
    if s.len() == 0 {
        None
    } else if s[0].address.0@ == a {
        Some(s[0])
    } else {
        conn_by_addr(s.drop_first(), a)
    }
}

/// The commands `init` queues: reset, read the version, the address and
/// the features, and set the standard event mask.
pub open spec fn init_commands() -> Seq<(u16, Seq<u8>)> {
    seq![
        (HCI_OP_RESET, Seq::empty()),
        (HCI_OP_READ_LOCAL_VERSION, Seq::empty()),
        (HCI_OP_READ_BD_ADDR, Seq::empty()),
        (HCI_OP_READ_LOCAL_FEATURES, Seq::empty()),
        (HCI_OP_SET_EVENT_MASK, crate::wire::le64(0x3DBFF807FFFBFFFF)),
    ]
}


/// The byte an address type is sent as.
fn address_type_byte(t: AddressType) -> (r: u8)
    ensures
        r == address_type_code(t),
{
    match t {
        AddressType::BrEdr => 0,
        AddressType::LePublic => 1,
        AddressType::LeRandom => 2,
    }
}

impl HciController {
    /// A controller that is off, at the zero address, without features,
    /// commands or connections; connection handles start at 1.
    pub fn new(transport: HciTransport) -> (r: Self)
        ensures
            r@.state == HciState::Off,
            r@.address.0@ == seq![0u8, 0, 0, 0, 0, 0],
            r@.features.raw@ == seq![0u8, 0, 0, 0, 0, 0, 0, 0],
            r@.commands == Seq::<(u16, Seq<u8>)>::empty(),
            r@.pending_cmd == 0,
            r@.pending_response.is_none(),
            r@.connections == Seq::<HciConnection>::empty(),
            r@.next_handle == 1,
            r@.handlers == Seq::<u32>::empty(),
    {
        let r = HciController {
            transport,
            state: HciState::Off,
            address: BdAddr([0, 0, 0, 0, 0, 0]),
            name: String::new(),
            version: HciVersion { hci_version: 0, hci_revision: 0, lmp_version: 0, manufacturer: 0, lmp_subversion: 0 },
            features: HciFeatures { raw: [0, 0, 0, 0, 0, 0, 0, 0] },
            le_features: LeFeatures { raw: [0, 0, 0, 0, 0, 0, 0, 0] },
            buffer_info: HciBufferInfo { acl_mtu: 0, sco_mtu: 0, acl_pkts: 0, sco_pkts: 0, le_mtu: 0, le_pkts: 0 },
            cmd_queue: VecDeque::new(),
            pending_cmd: 0,
            pending_response: None,
            connections: Vec::new(),
            next_handle: 1,
            event_handlers: Vec::new(),
        };
        assert(r@.address.0@ =~= seq![0u8, 0, 0, 0, 0, 0]);
        assert(r@.features.raw@ =~= seq![0u8, 0, 0, 0, 0, 0, 0, 0]);
        assert(r@.commands =~= Seq::<(u16, Seq<u8>)>::empty());
        r
    }

    /// Get controller state
    pub fn state(&self) -> (r: HciState)
        ensures
            r == self@.state,
    {
        self.state
    }

    /// Set controller state
    fn set_state(&mut self, state: HciState)
        ensures
            final(self)@ == (HciControllerView { state, ..old(self)@ }),
    {
        self.state = state;
    }

    /// Send HCI command: queued and awaited; the answer is a Command
    /// Complete event for its opcode with status 0 (the hardware's own
    /// answer comes as an event).
    pub fn send_command(&mut self, cmd: HciCommand) -> (r: Result<HciEvent, BluetoothError>)
        ensures
            final(self)@ == awaited(old(self)@, cmd.opcode, cmd.params@),
            r matches Ok(e) && e.code == 0x0E && e.params@ == seq![1u8, (cmd.opcode % 256) as u8, (cmd.opcode / 256) as u8, 0u8],
    {
        let opcode = cmd.opcode;
        let ghost p = cmd.params@;
        self.cmd_queue.push_back(cmd);
        self.pending_cmd = opcode;
        assert(self@.commands =~= old(self)@.commands.push((opcode, p)));
        let lo = crate::wire::lo8(opcode);
        let hi = crate::wire::hi8(opcode);
        let response = HciEvent { code: 0x0E, params: vec![1, lo, hi, 0] };
        Ok(response)
    }

    /// Send HCI command without waiting for response
    pub fn send_command_no_wait(&mut self, cmd: HciCommand) -> (r: Result<(), BluetoothError>)
        ensures
            final(self)@ == queued(old(self)@, cmd.opcode, cmd.params@),
            r is Ok,
    {
        let ghost c = (cmd.opcode, cmd.params@);
        self.cmd_queue.push_back(cmd);
        assert(self@.commands =~= old(self)@.commands.push(c));
        Ok(())
    }

    /// Initialize controller: reset, read the version, address and
    /// features, set the event mask; then the controller runs.
    pub fn init(&mut self) -> (r: Result<(), BluetoothError>)
        ensures
            r is Ok,
            final(self)@ == (HciControllerView {
                state: HciState::Running,
                commands: old(self)@.commands + init_commands(),
                pending_cmd: HCI_OP_SET_EVENT_MASK,
                ..old(self)@
            }),
    {
        self.set_state(HciState::Initializing);
        let _ = self.send_command(HciCommand::reset());
        let _ = self.send_command(HciCommand::read_local_version());
        let _ = self.send_command(HciCommand::read_bd_addr());
        let _ = self.send_command(HciCommand::read_local_features());
        let event_mask = 0x3DBFF807FFFBFFFFu64;
        let _ = self.send_command(HciCommand::set_event_mask(event_mask));
        self.set_state(HciState::Running);
        assert(self@.commands =~= old(self)@.commands + init_commands());
        Ok(())
    }

    /// Keep the connections other than those with handle `h`.
    fn remove_handle(&mut self, h: u16)
        ensures
            final(self)@ == (HciControllerView { connections: without_handle(old(self)@.connections, h), ..old(self)@ }),
    {
        let mut kept: Vec<HciConnection> = Vec::new();
        let mut i: usize = 0;
        assert(self.connections@.take(0) =~= Seq::<HciConnection>::empty());
        while i < self.connections.len()
            invariant
                i <= self.connections@.len(),
                self@ == old(self)@,
                kept@ == without_handle(self.connections@.take(i as int), h),
            decreases self.connections@.len() - i,
        {
            let c = self.connections[i];
            assert(self.connections@.take(i + 1).drop_last() =~= self.connections@.take(i as int));
            if c.handle != h {
                kept.push(c);
            }
            i = i + 1;
        }
        assert(self.connections@.take(i as int) =~= self.connections@);
        self.connections = kept;
    }

    /// Register an event handler under the caller's token `handler`; every
    /// event handled afterwards names it
    pub fn register_event_handler(&mut self, handler: u32)
        ensures
            final(self)@ == (HciControllerView { handlers: old(self)@.handlers.push(handler), ..old(self)@ }),
    {
        self.event_handlers.push(handler);
    }

    /// Handle incoming event: a Command Complete for the awaited command is
    /// kept as its response; connection and disconnection events change the
    /// connections. The tokens of the handlers the event goes to come back,
    /// each once, in registration order: every registered handler.
    pub fn handle_event(&mut self, event: &HciEvent) -> (handlers: Vec<u32>)
        ensures
            handlers@ == old(self)@.handlers,
            final(self)@.handlers == old(self)@.handlers,
            ({
                let v = old(self)@;
                let p = event.params@;
                let answered = v.pending_cmd != 0 && event.code == 0x0E && p.len() >= 3 && from_le16(p[1], p[2]) == v.pending_cmd;
                &&& final(self)@.pending_cmd == if answered { 0 } else { v.pending_cmd }
                &&& final(self)@.pending_response == if answered { Some((event.code, p)) } else { v.pending_response }
                &&& connections_after(v.connections, final(self)@.connections, event.code, p)
                &&& final(self)@.state == v.state && final(self)@.address == v.address && final(self)@.features == v.features
                &&& final(self)@.commands == v.commands && final(self)@.next_handle == v.next_handle
            }),
    {
        let pending = self.pending_cmd;
        if pending != 0 && event.is_command_complete(pending) {
            let params = vstd::slice::slice_to_vec(event.params.as_slice());
            self.pending_response = Some(HciEvent { code: event.code, params });
            self.pending_cmd = 0;
        }
        let p = event.params.as_slice();
        let ghost before = self@;
        match event.event_code() {
            Some(HciEventCode::ConnectionComplete) => {
                if p.len() >= 11 && HciStatus::from(p[0]) == HciStatus::Success {
                    let handle = crate::wire::make_u16(p[1], p[2]);
                    let addr: [u8; 6] = [p[3], p[4], p[5], p[6], p[7], p[8]];
                    assert(addr@ =~= p@.subrange(3, 9));
                    let conn = HciConnection {
                        handle,
                        address: BdAddr(addr),
                        link_type: if p[9] == 0 { LinkType::Sco } else { LinkType::Acl },
                        encrypted: p[10] != 0,
                        role: ConnectionRole::Master,
                        state: ConnectionState::Connected,
                    };
                    self.connections.push(conn);
                    assert(self@.connections.drop_last() =~= before.connections);
                }
            },
            Some(HciEventCode::DisconnectionComplete) => {
                if p.len() >= 4 && HciStatus::from(p[0]) == HciStatus::Success {
                    let handle = crate::wire::make_u16(p[1], p[2]);
                    self.remove_handle(handle);
                }
            },
            Some(HciEventCode::LeMeta) => {
                if p.len() >= 19 && (p[0] == 0x01 || p[0] == 0x0A) && HciStatus::from(p[1]) == HciStatus::Success {
                    let handle = crate::wire::make_u16(p[2], p[3]);
                    let role = if p[4] == 0 { ConnectionRole::Master } else { ConnectionRole::Slave };
                    let addr: [u8; 6] = [p[6], p[7], p[8], p[9], p[10], p[11]];
                    assert(addr@ =~= p@.subrange(6, 12));
                    let conn = HciConnection {
                        handle,
                        address: BdAddr(addr),
                        link_type: LinkType::Le,
                        encrypted: false,
                        role,
                        state: ConnectionState::Connected,
                    };
                    self.connections.push(conn);
                    assert(self@.connections.drop_last() =~= before.connections);
                }
            },
            _ => {},
        }
        let mut out: Vec<u32> = Vec::new();
        let mut i: usize = 0;
        while i < self.event_handlers.len()
            invariant
                i <= self.event_handlers@.len(),
                self.event_handlers@ == old(self)@.handlers,
                out@ == self.event_handlers@.take(i as int),
            decreases self.event_handlers@.len() - i,
        {
            out.push(self.event_handlers[i]);
            assert(out@ =~= self.event_handlers@.take(i + 1));
            i = i + 1;
        }
        assert(out@ =~= self.event_handlers@);
        out
    }

    /// Send ACL data: serialized for the hardware; always accepted.
    pub fn send_acl(&self, packet: &AclPacket) -> (r: Result<(), BluetoothError>)
        ensures
            r is Ok,
    {
        let _bytes = packet.to_bytes();
        Ok(())
    }

    /// Get connection by handle: the first with that handle.
    pub fn get_connection(&self, handle: u16) -> (r: Option<HciConnection>)
        ensures
            r == conn_by_handle(self@.connections, handle),
    {
        let mut i: usize = 0;
        assert(self.connections@.skip(0) =~= self.connections@);
        while i < self.connections.len()
            invariant
                i <= self.connections@.len(),
                conn_by_handle(self@.connections, handle) == conn_by_handle(self.connections@.skip(i as int), handle),
            decreases self.connections@.len() - i,
        {
            assert(self.connections@.skip(i as int).drop_first() =~= self.connections@.skip(i + 1));
            if self.connections[i].handle == handle {
                return Some(self.connections[i]);
            }
            i = i + 1;
        }
        None
    }

    /// Get connection by address: the first with that address.
    pub fn get_connection_by_addr(&self, addr: &BdAddr) -> (r: Option<HciConnection>)
        ensures
            r == conn_by_addr(self@.connections, addr.0@),
    {
        let mut i: usize = 0;
        assert(self.connections@.skip(0) =~= self.connections@);
        while i < self.connections.len()
            invariant
                i <= self.connections@.len(),
                conn_by_addr(self@.connections, addr.0@) == conn_by_addr(self.connections@.skip(i as int), addr.0@),
            decreases self.connections@.len() - i,
        {
            assert(self.connections@.skip(i as int).drop_first() =~= self.connections@.skip(i + 1));
            let c = self.connections[i];
            if crate::text::bytes_equal(c.address.0.as_slice(), addr.0.as_slice()) {
                return Some(c);
            }
            i = i + 1;
        }
        None
    }

    /// Disconnect: queue the Disconnect command for `handle` with `reason`.
    pub fn disconnect(&mut self, handle: u16, reason: u8) -> (r: Result<(), BluetoothError>)
        ensures
            r is Ok,
            final(self)@ == queued(old(self)@, HCI_OP_DISCONNECT, le16(handle) + seq![reason]),
    {
        let mut params: Vec<u8> = Vec::new();
        crate::wire::push_u16_le(&mut params, handle);
        params.push(reason);
        assert(params@ =~= le16(handle) + seq![reason]);
        let cmd = HciCommand::new(HCI_OP_DISCONNECT, params);
        self.send_command_no_wait(cmd)
    }

    /// Check if LE is supported
    pub fn supports_le(&self) -> (r: bool)
        ensures
            r == crate::wire::bit_set(self@.features.raw@[4], 6),
    {
        self.features.has_le_supported()
    }

    /// Check if BR/EDR is supported
    pub fn supports_bredr(&self) -> (r: bool)
        ensures
            r == !crate::wire::bit_set(self@.features.raw@[4], 5),
    {
        !self.features.br_edr_not_supported()
    }

    /// Check if SSP is supported
    pub fn supports_ssp(&self) -> (r: bool)
        ensures
            r == crate::wire::bit_set(self@.features.raw@[6], 3),
    {
        self.features.has_ssp()
    }

    /// Get all active connections
    pub fn connections(&self) -> (r: Vec<HciConnection>)
        ensures
            r@ == self@.connections,
    {
        let mut out: Vec<HciConnection> = Vec::new();
        let mut i: usize = 0;
        while i < self.connections.len()
            invariant
                i <= self.connections@.len(),
                out@ == self.connections@.take(i as int),
            decreases self.connections@.len() - i,
        {
            out.push(self.connections[i]);
            assert(out@ =~= self.connections@.take(i + 1));
            i = i + 1;
        }
        assert(out@ =~= self.connections@);
        out
    }

    /// Allocate connection handle
    pub fn alloc_handle(&mut self) -> (r: u16)
        ensures
            r == old(self)@.next_handle,
            final(self)@ == (HciControllerView { next_handle: old(self)@.next_handle.wrapping_add(1), ..old(self)@ }),
    {
        let h = self.next_handle;
        self.next_handle = self.next_handle.wrapping_add(1);
        h
    }

    /// Reset controller
    pub fn reset(&mut self) -> (r: Result<(), BluetoothError>)
        ensures
            r is Ok,
            final(self)@ == awaited(old(self)@, HCI_OP_RESET, Seq::empty()),
    {
        let _ = self.send_command(HciCommand::reset());
        Ok(())
    }

    /// Read BD_ADDR: the command is sent; the address known so far is given.
    pub fn read_bd_addr(&mut self) -> (r: Result<BdAddr, BluetoothError>)
        ensures
            r == Ok::<BdAddr, BluetoothError>(old(self)@.address),
            final(self)@ == awaited(old(self)@, HCI_OP_READ_BD_ADDR, Seq::empty()),
    {
        let _ = self.send_command(HciCommand::read_bd_addr());
        Ok(self.address)
    }

    /// Read local features
    pub fn read_local_features(&mut self) -> (r: Result<(), BluetoothError>)
        ensures
            r is Ok,
            final(self)@ == awaited(old(self)@, HCI_OP_READ_LOCAL_FEATURES, Seq::empty()),
    {
        let _ = self.send_command(HciCommand::read_local_features());
        Ok(())
    }

    /// Write scan enable
    pub fn write_scan_enable(&mut self, scan_enable: u8) -> (r: Result<(), BluetoothError>)
        ensures
            r is Ok,
            final(self)@ == awaited(old(self)@, HCI_OP_WRITE_SCAN_ENABLE, seq![scan_enable]),
    {
        let _ = self.send_command(HciCommand::write_scan_enable(scan_enable));
        Ok(())
    }

    /// Start inquiry (not awaited)
    pub fn inquiry(&mut self, lap: u32, inquiry_length: u8, num_responses: u8) -> (r: Result<(), BluetoothError>)
        ensures
            r is Ok,
            final(self)@ == queued(
                old(self)@,
                HCI_OP_INQUIRY,
                seq![(lap % 256) as u8, ((lap / 256) % 256) as u8, ((lap / 65536) % 256) as u8, inquiry_length, num_responses],
            ),
    {
        let cmd = HciCommand::inquiry(lap, inquiry_length, num_responses);
        self.send_command_no_wait(cmd)
    }

    /// Cancel inquiry
    pub fn inquiry_cancel(&mut self) -> (r: Result<(), BluetoothError>)
        ensures
            r is Ok,
            final(self)@ == awaited(old(self)@, HCI_OP_INQUIRY_CANCEL, Seq::empty()),
    {
        let _ = self.send_command(HciCommand::inquiry_cancel());
        Ok(())
    }

    /// Set LE scan parameters
    pub fn le_set_scan_parameters(&mut self, scan_type: u8, interval: u16, window: u16, own_addr_type: u8, filter_policy: u8) -> (r: Result<(), BluetoothError>)
        ensures
            r is Ok,
            final(self)@ == awaited(
                old(self)@,
                HCI_OP_LE_SET_SCAN_PARAM,
                seq![scan_type] + le16(interval) + le16(window) + seq![own_addr_type, filter_policy],
            ),
    {
        let _ = self.send_command(HciCommand::le_set_scan_params(scan_type, interval, window, own_addr_type, filter_policy));
        Ok(())
    }

    /// Set LE scan enable
    pub fn le_set_scan_enable(&mut self, enable: bool, filter_duplicates: bool) -> (r: Result<(), BluetoothError>)
        ensures
            r is Ok,
            final(self)@ == awaited(
                old(self)@,
                HCI_OP_LE_SET_SCAN_ENABLE,
                seq![crate::wire::flag_byte(enable), crate::wire::flag_byte(filter_duplicates)],
            ),
    {
        let _ = self.send_command(HciCommand::le_set_scan_enable(enable, filter_duplicates));
        Ok(())
    }

    /// Create BR/EDR connection: the command is queued (DM1/DH1/DM3/DH3/DM5/DH5
    /// packets, R2, no clock offset, role switch allowed) and a handle
    /// allocated for it.
    pub fn create_connection(&mut self, address: &BdAddr) -> (r: Result<u16, BluetoothError>)
        ensures
            r == Ok::<u16, BluetoothError>(old(self)@.next_handle),
            final(self)@ == (HciControllerView {
                next_handle: old(self)@.next_handle.wrapping_add(1),
                ..queued(
                    old(self)@,
                    HCI_OP_CREATE_CONN,
                    address.0@ + le16(0xCC18) + seq![0x02u8, 0u8] + le16(0) + seq![1u8],
                )
            }),
    {
        let cmd = HciCommand::create_connection(address, 0xCC18, 0x02, 0x0000, true);
        let _ = self.send_command_no_wait(cmd);
        Ok(self.alloc_handle())
    }

    /// Create LE connection: the command is queued (10 ms scan interval and
    /// window, 7.5 to 15 ms connection interval, 2 s supervision timeout)
    /// and a handle allocated for it.
    pub fn le_create_connection(&mut self, address: &BdAddr, address_type: AddressType) -> (r: Result<u16, BluetoothError>)
        ensures
            r == Ok::<u16, BluetoothError>(old(self)@.next_handle),
            final(self)@ == (HciControllerView {
                next_handle: old(self)@.next_handle.wrapping_add(1),
                ..queued(
                    old(self)@,
                    HCI_OP_LE_CREATE_CONN,
                    le16(0x0010) + le16(0x0010) + seq![0u8, address_type_code(address_type)] + address.0@ + seq![0u8]
                        + le16(0x0006) + le16(0x000C) + le16(0) + le16(0x00C8) + le16(0) + le16(0),
                )
            }),
    {
        let cmd = HciCommand::le_create_connection(
            0x0010,
            0x0010,
            0x00,
            address_type_byte(address_type),
            address,
            0x00,
            0x0006,
            0x000C,
            0x0000,
            0x00C8,
            0x0000,
            0x0000,
        );
        let _ = self.send_command_no_wait(cmd);
        Ok(self.alloc_handle())
    }
}

} // verus!
