//! HID connections: a host's view of a connected device, the host's table
//! of devices, and the peripheral side. Channels are named by their local
//! CID in the L2CAP manager, which the calls that send are given.
use vstd::prelude::*;
use super::{BootKeyboardReport, BootMouseReport, HidDeviceInfo, HidDeviceSubclass, HidDeviceType, HidHandshake, HidMessageType,
    HidProtocol, HidReportDescriptor, HidReportType, HidState, KeyboardLeds, keyboard_bytes};
use crate::bluetooth::{BdAddr, BluetoothError};
use crate::bluetooth::l2cap::{PSM_HID_CONTROL, PSM_HID_INTERRUPT};
use crate::bluetooth::l2cap::manager::{closed_on, connected_on, manager_wf, queued_on, L2capManager, L2capManagerView};

verus! {

/// The header byte of a HID message: its type in the high nibble, the
/// parameter in the low one.
pub open spec fn hid_header(t: HidMessageType, param: u8) -> u8 {
    ((t.code() << 4u8) | (param & 0x0Fu8)) as u8
}

/// The message type in a header byte; types the host does not know are
/// read as reserved.
pub open spec fn message_type_of(header: u8) -> HidMessageType {
    let t = header >> 4u8;
    if t == 0 {
        HidMessageType::Handshake
    } else if t == 1 {
        HidMessageType::HidControl
    } else if t == 4 {
        HidMessageType::GetReport
    } else if t == 5 {
        HidMessageType::SetReport
    } else if t == 6 {
        HidMessageType::GetProtocol
    } else if t == 7 {
        HidMessageType::SetProtocol
    } else if t == 8 {
        HidMessageType::GetIdle
    } else if t == 9 {
        HidMessageType::SetIdle
    } else if t == 10 {
        HidMessageType::DataOutput
    } else if t == 11 {
        HidMessageType::DataInput
    } else {
        HidMessageType::Reserved2
    }
}

/// The handshake result a parameter names (unknown ones as "unknown").
pub open spec fn handshake_of(param: u8) -> HidHandshake {
    if param == 0 {
        HidHandshake::Successful
    } else if param == 1 {
        HidHandshake::NotReady
    } else if param == 2 {
        HidHandshake::ErrInvalidReportId
    } else if param == 3 {
        HidHandshake::ErrUnsupportedRequest
    } else if param == 4 {
        HidHandshake::ErrInvalidParameter
    } else if param == 15 {
        HidHandshake::ErrFatal
    } else {
        HidHandshake::ErrUnknown
    }
}

/// What a device connection holds.
pub struct HidDeviceView {
    pub address: BdAddr,
    pub state: HidState,
    pub protocol: HidProtocol,
    /// Control channel (PSM 0x0011), by local CID
    pub control: Option<u16>,
    /// Interrupt channel (PSM 0x0013), by local CID
    pub interrupt: Option<u16>,
    pub keyboard: BootKeyboardReport,
    pub mouse: BootMouseReport,
    pub idle_rate: u8,
    pub reconnect_enabled: bool,
}

/// HID device connection
pub struct HidDevice {
    /// Remote device address
    pub address: BdAddr,
    /// Device info
    pub info: HidDeviceInfo,
    state: HidState,
    protocol: HidProtocol,
    control_channel: Option<u16>,
    interrupt_channel: Option<u16>,
    keyboard_state: BootKeyboardReport,
    mouse_state: BootMouseReport,
    idle_rate: u8,
    reconnect_enabled: bool,
}

impl View for HidDevice {
    type V = HidDeviceView;

    closed spec fn view(&self) -> HidDeviceView {
        HidDeviceView {
            address: self.address,
            state: self.state,
            protocol: self.protocol,
            control: self.control_channel,
            interrupt: self.interrupt_channel,
            keyboard: self.keyboard_state,
            mouse: self.mouse_state,
            idle_rate: self.idle_rate,
            reconnect_enabled: self.reconnect_enabled,
        }
    }
}

/// The manager after closing the channel `c` names, if any.
pub open spec fn close_opt(l: L2capManagerView, c: Option<u16>) -> L2capManagerView {
    match c {
        Some(cid) => closed_on(l, cid),
        None => l,
    }
}

/// Whether `new` is `old` after an input report `data` from a device of
/// type `dt`: a keyboard keeps a whole boot report, a mouse a whole boot
/// report; nothing else changes.
pub open spec fn input_applied(old: HidDeviceView, new: HidDeviceView, dt: HidDeviceType, data: Seq<u8>) -> bool {
    &&& new.address == old.address && new.state == old.state && new.protocol == old.protocol && new.control == old.control
    &&& new.interrupt == old.interrupt && new.idle_rate == old.idle_rate && new.reconnect_enabled == old.reconnect_enabled
    &&& if dt == HidDeviceType::Keyboard && data.len() >= 8 {
        keyboard_bytes(new.keyboard) == data.take(8)
    } else {
        new.keyboard == old.keyboard
    }
    &&& if dt == HidDeviceType::Mouse && data.len() >= 3 {
        new.mouse.buttons.0 == data[0] && new.mouse.x == data[1] as i8 && new.mouse.y == data[2] as i8
    } else {
        new.mouse == old.mouse
    }
}

/// The device after it is disconnected.
pub open spec fn disconnected(v: HidDeviceView) -> HidDeviceView {
    HidDeviceView { state: HidState::Disconnected, control: None, interrupt: None, ..v }
}

impl HidDevice {
    /// The device information.
    pub closed spec fn info_of(&self) -> HidDeviceInfo {
        self.info
    }

    /// A disconnected device in report protocol.
    pub fn new(address: BdAddr) -> (r: Self)
        ensures
            r@.address == address,
            r@.state == HidState::Disconnected,
            r@.protocol == HidProtocol::Report,
            r@.control.is_none() && r@.interrupt.is_none(),
            r@.keyboard.modifiers.0 == 0 && r@.keyboard.reserved == 0,
            forall|i: int| 0 <= i < 6 ==> r@.keyboard.keys@[i] == 0,
            r@.mouse.buttons.0 == 0 && r@.mouse.x == 0 && r@.mouse.y == 0,
            r@.idle_rate == 0,
            r@.reconnect_enabled,
    {
        HidDevice {
            address,
            info: HidDeviceInfo::new(),
            state: HidState::Disconnected,
            protocol: HidProtocol::Report,
            control_channel: None,
            interrupt_channel: None,
            keyboard_state: BootKeyboardReport::new(),
            mouse_state: BootMouseReport::new(),
            idle_rate: 0,
            reconnect_enabled: true,
        }
    }

    /// Connection state
    pub fn state(&self) -> (r: HidState)
        ensures
            r == self@.state,
    {
        self.state
    }

    /// Current protocol mode
    pub fn protocol(&self) -> (r: HidProtocol)
        ensures
            r == self@.protocol,
    {
        self.protocol
    }

    /// Build HID message header
    fn build_header(msg_type: HidMessageType, param: u8) -> (r: u8)
        ensures
            r == hid_header(msg_type, param),
    {
        (msg_type.to_u8() << 4u8) | (param & 0x0F)
    }

    /// Parse HID message header: the message type and the parameter.
    pub fn parse_header(header: u8) -> (r: (HidMessageType, u8))
        ensures
            r == (message_type_of(header), header & 0x0Fu8),
    {
        let msg_type = match header >> 4u8 {
            0x00 => HidMessageType::Handshake,
            0x01 => HidMessageType::HidControl,
            0x04 => HidMessageType::GetReport,
            0x05 => HidMessageType::SetReport,
            0x06 => HidMessageType::GetProtocol,
            0x07 => HidMessageType::SetProtocol,
            0x08 => HidMessageType::GetIdle,
            0x09 => HidMessageType::SetIdle,
            0x0A => HidMessageType::DataOutput,
            0x0B => HidMessageType::DataInput,
            _ => HidMessageType::Reserved2,
        };
        (msg_type, header & 0x0F)
    }

    /// The handshake result a parameter names.
    pub fn handshake_result(param: u8) -> (r: HidHandshake)
        ensures
            r == handshake_of(param),
    {
        match param {
            0x00 => HidHandshake::Successful,
            0x01 => HidHandshake::NotReady,
            0x02 => HidHandshake::ErrInvalidReportId,
            0x03 => HidHandshake::ErrUnsupportedRequest,
            0x04 => HidHandshake::ErrInvalidParameter,
            0x0E => HidHandshake::ErrUnknown,
            0x0F => HidHandshake::ErrFatal,
            _ => HidHandshake::ErrUnknown,
        }
    }

    /// Send control message: the header, then `data`, queued on the
    /// control channel.
    pub fn send_control(&self, l2cap: &mut L2capManager, msg_type: HidMessageType, param: u8, data: &[u8]) -> (r: Result<(), BluetoothError>)
        requires
            manager_wf(old(l2cap)@),
        ensures
            manager_wf(final(l2cap)@),
            match self@.control {
                None => r == Err::<(), BluetoothError>(BluetoothError::NotConnected) && final(l2cap)@ == old(l2cap)@,
                Some(cid) => (final(l2cap)@, r) == queued_on(old(l2cap)@, cid, seq![hid_header(msg_type, param)] + data@),
            },
    {
        let cid = match self.control_channel {
            Some(c) => c,
            None => {
                return Err(BluetoothError::NotConnected);
            },
        };
        let mut packet: Vec<u8> = Vec::new();
        packet.push(Self::build_header(msg_type, param));
        crate::wire::extend_bytes(&mut packet, data);
        assert(packet@ =~= seq![hid_header(msg_type, param)] + data@);
        l2cap.channel_send(cid, packet)
    }

    /// Send interrupt data, queued on the interrupt channel.
    pub fn send_interrupt(&self, l2cap: &mut L2capManager, data: &[u8]) -> (r: Result<(), BluetoothError>)
        requires
            manager_wf(old(l2cap)@),
        ensures
            manager_wf(final(l2cap)@),
            match self@.interrupt {
                None => r == Err::<(), BluetoothError>(BluetoothError::NotConnected) && final(l2cap)@ == old(l2cap)@,
                Some(cid) => (final(l2cap)@, r) == queued_on(old(l2cap)@, cid, data@),
            },
    {
        let cid = match self.interrupt_channel {
            Some(c) => c,
            None => {
                return Err(BluetoothError::NotConnected);
            },
        };
        l2cap.channel_send(cid, vstd::slice::slice_to_vec(data))
    }
}

impl HidDevice {
    /// Get report request: asks for report `report_id` of `report_type`
    /// (with the size bit set); the report comes later, so none is given.
    pub fn get_report(&self, l2cap: &mut L2capManager, report_type: HidReportType, report_id: u8) -> (r: Result<Vec<u8>, BluetoothError>)
        requires
            manager_wf(old(l2cap)@),
        ensures
            manager_wf(final(l2cap)@),
            ({
                let h = hid_header(HidMessageType::GetReport, report_type.code() | 0x08u8);
                match self@.control {
                    None => r == Err::<Vec<u8>, BluetoothError>(BluetoothError::NotConnected) && final(l2cap)@ == old(l2cap)@,
                    Some(cid) => final(l2cap)@ == queued_on(old(l2cap)@, cid, seq![h, report_id]).0 && match queued_on(
                        old(l2cap)@,
                        cid,
                        seq![h, report_id],
                    ).1 {
                        Ok(_) => r matches Ok(v) && v@.len() == 0,
                        Err(e) => r matches Err(e2) && e2 == e,
                    },
                }
            }),
    {
        let param = report_type.to_u8() | 0x08;
        let id: [u8; 1] = [report_id];
        assert(seq![hid_header(HidMessageType::GetReport, param)] + id@ =~= seq![hid_header(HidMessageType::GetReport, param), report_id]);
        match self.send_control(l2cap, HidMessageType::GetReport, param, id.as_slice()) {
            Ok(()) => Ok(Vec::new()),
            Err(e) => Err(e),
        }
    }

    /// Set report request: report `report_id` of `report_type` with `data`.
    pub fn set_report(&self, l2cap: &mut L2capManager, report_type: HidReportType, report_id: u8, data: &[u8]) -> (r: Result<(), BluetoothError>)
        requires
            manager_wf(old(l2cap)@),
        ensures
            manager_wf(final(l2cap)@),
            match self@.control {
                None => r == Err::<(), BluetoothError>(BluetoothError::NotConnected) && final(l2cap)@ == old(l2cap)@,
                Some(cid) => (final(l2cap)@, r) == queued_on(
                    old(l2cap)@,
                    cid,
                    seq![hid_header(HidMessageType::SetReport, report_type.code()), report_id] + data@,
                ),
            },
    {
        let param = report_type.to_u8();
        let mut payload: Vec<u8> = Vec::new();
        payload.push(report_id);
        crate::wire::extend_bytes(&mut payload, data);
        let ghost h = hid_header(HidMessageType::SetReport, param);
        assert(seq![h] + payload@ =~= seq![h, report_id] + data@);
        self.send_control(l2cap, HidMessageType::SetReport, param, payload.as_slice())
    }

    /// Ask for the current protocol; gives the protocol as it is known here.
    pub fn get_protocol_request(&self, l2cap: &mut L2capManager) -> (r: Result<HidProtocol, BluetoothError>)
        requires
            manager_wf(old(l2cap)@),
        ensures
            manager_wf(final(l2cap)@),
            match self@.control {
                None => r == Err::<HidProtocol, BluetoothError>(BluetoothError::NotConnected) && final(l2cap)@ == old(l2cap)@,
                Some(cid) => {
                    let q = queued_on(old(l2cap)@, cid, seq![hid_header(HidMessageType::GetProtocol, 0)]);
                    final(l2cap)@ == q.0 && r == match q.1 {
                        Ok(_) => Ok::<HidProtocol, BluetoothError>(self@.protocol),
                        Err(e) => Err(e),
                    }
                },
            },
    {
        let empty: [u8; 0] = [];
        assert(seq![hid_header(HidMessageType::GetProtocol, 0)] + empty@ =~= seq![hid_header(HidMessageType::GetProtocol, 0)]);
        match self.send_control(l2cap, HidMessageType::GetProtocol, 0, empty.as_slice()) {
            Ok(()) => Ok(self.protocol),
            Err(e) => Err(e),
        }
    }

    /// Set protocol mode: the request, then the mode is taken as set.
    pub fn set_protocol(&mut self, l2cap: &mut L2capManager, protocol: HidProtocol) -> (r: Result<(), BluetoothError>)
        requires
            manager_wf(old(l2cap)@),
        ensures
            manager_wf(final(l2cap)@),
            match old(self)@.control {
                None => r == Err::<(), BluetoothError>(BluetoothError::NotConnected) && final(l2cap)@ == old(l2cap)@
                    && final(self)@ == old(self)@,
                Some(cid) => {
                    let q = queued_on(old(l2cap)@, cid, seq![hid_header(HidMessageType::SetProtocol, protocol.code())]);
                    final(l2cap)@ == q.0 && r == q.1 && final(self)@ == if q.1 is Ok {
                        HidDeviceView { protocol, ..old(self)@ }
                    } else {
                        old(self)@
                    }
                },
            },
    {
        let empty: [u8; 0] = [];
        let p = protocol.to_u8();
        assert(seq![hid_header(HidMessageType::SetProtocol, p)] + empty@ =~= seq![hid_header(HidMessageType::SetProtocol, p)]);
        match self.send_control(l2cap, HidMessageType::SetProtocol, p, empty.as_slice()) {
            Ok(()) => {
                self.protocol = protocol;
                Ok(())
            },
            Err(e) => Err(e),
        }
    }

    /// Ask for the idle rate; gives the rate as it is known here.
    pub fn get_idle(&self, l2cap: &mut L2capManager) -> (r: Result<u8, BluetoothError>)
        requires
            manager_wf(old(l2cap)@),
        ensures
            manager_wf(final(l2cap)@),
            match self@.control {
                None => r == Err::<u8, BluetoothError>(BluetoothError::NotConnected) && final(l2cap)@ == old(l2cap)@,
                Some(cid) => {
                    let q = queued_on(old(l2cap)@, cid, seq![hid_header(HidMessageType::GetIdle, 0)]);
                    final(l2cap)@ == q.0 && r == match q.1 {
                        Ok(_) => Ok::<u8, BluetoothError>(self@.idle_rate),
                        Err(e) => Err(e),
                    }
                },
            },
    {
        let empty: [u8; 0] = [];
        assert(seq![hid_header(HidMessageType::GetIdle, 0)] + empty@ =~= seq![hid_header(HidMessageType::GetIdle, 0)]);
        match self.send_control(l2cap, HidMessageType::GetIdle, 0, empty.as_slice()) {
            Ok(()) => Ok(self.idle_rate),
            Err(e) => Err(e),
        }
    }

    /// Set idle rate (4ms units): the request, then the rate is taken as set.
    pub fn set_idle(&mut self, l2cap: &mut L2capManager, rate: u8) -> (r: Result<(), BluetoothError>)
        requires
            manager_wf(old(l2cap)@),
        ensures
            manager_wf(final(l2cap)@),
            match old(self)@.control {
                None => r == Err::<(), BluetoothError>(BluetoothError::NotConnected) && final(l2cap)@ == old(l2cap)@
                    && final(self)@ == old(self)@,
                Some(cid) => {
                    let q = queued_on(old(l2cap)@, cid, seq![hid_header(HidMessageType::SetIdle, rate)]);
                    final(l2cap)@ == q.0 && r == q.1 && final(self)@ == if q.1 is Ok {
                        HidDeviceView { idle_rate: rate, ..old(self)@ }
                    } else {
                        old(self)@
                    }
                },
            },
    {
        let empty: [u8; 0] = [];
        assert(seq![hid_header(HidMessageType::SetIdle, rate)] + empty@ =~= seq![hid_header(HidMessageType::SetIdle, rate)]);
        match self.send_control(l2cap, HidMessageType::SetIdle, rate, empty.as_slice()) {
            Ok(()) => {
                self.idle_rate = rate;
                Ok(())
            },
            Err(e) => Err(e),
        }
    }

    /// Send keyboard LED state: an output report with id 0.
    pub fn set_keyboard_leds(&self, l2cap: &mut L2capManager, leds: KeyboardLeds) -> (r: Result<(), BluetoothError>)
        requires
            manager_wf(old(l2cap)@),
        ensures
            manager_wf(final(l2cap)@),
            match self@.control {
                None => r == Err::<(), BluetoothError>(BluetoothError::NotConnected) && final(l2cap)@ == old(l2cap)@,
                Some(cid) => (final(l2cap)@, r) == queued_on(
                    old(l2cap)@,
                    cid,
                    seq![hid_header(HidMessageType::SetReport, HidReportType::Output.code()), 0u8, leds.0],
                ),
            },
    {
        let data: [u8; 1] = [leds.0];
        assert(seq![hid_header(HidMessageType::SetReport, HidReportType::Output.code()), 0u8] + data@ =~= seq![
            hid_header(HidMessageType::SetReport, HidReportType::Output.code()),
            0u8,
            leds.0,
        ]);
        self.set_report(l2cap, HidReportType::Output, 0, data.as_slice())
    }

    /// Handle input report: a keyboard or mouse keeps its boot report.
    fn handle_input_report(&mut self, data: &[u8])
        ensures
            input_applied(old(self)@, final(self)@, old(self).info_of().device_type, data@),
            final(self).info_of() == old(self).info_of(),
    {
        match self.info.device_type {
            HidDeviceType::Keyboard => {
                if let Some(report) = BootKeyboardReport::from_bytes(data) {
                    self.keyboard_state = report;
                }
            },
            HidDeviceType::Mouse => {
                if let Some(report) = BootMouseReport::from_bytes(data) {
                    self.mouse_state = report;
                }
            },
            _ => {},
        }
    }

    /// Handle incoming control message. A suspend, exit-suspend or
    /// virtual-cable-unplug control changes the connection; an input report
    /// is kept (for a keyboard or mouse) and given back for the input
    /// handler; anything else is only read.
    pub fn handle_control(&mut self, l2cap: &mut L2capManager, data: &[u8]) -> (r: Result<Option<Vec<u8>>, BluetoothError>)
        requires
            manager_wf(old(l2cap)@),
        ensures
            manager_wf(final(l2cap)@),
            final(self).info_of() == old(self).info_of(),
            data@.len() == 0 ==> r is Err && r->Err_0 == BluetoothError::InvalidParameter && final(self)@ == old(self)@
                && final(l2cap)@ == old(l2cap)@,
            data@.len() > 0 ==> ({
                let t = message_type_of(data@[0]);
                let p = data@[0] & 0x0Fu8;
                if t == HidMessageType::HidControl && p == 3 {
                    r matches Ok(None) && final(self)@ == (HidDeviceView { state: HidState::Suspended, ..old(self)@ })
                        && final(l2cap)@ == old(l2cap)@
                } else if t == HidMessageType::HidControl && p == 4 {
                    r matches Ok(None) && final(self)@ == (HidDeviceView { state: HidState::Connected, ..old(self)@ })
                        && final(l2cap)@ == old(l2cap)@
                } else if t == HidMessageType::HidControl && p == 5 {
                    r matches Ok(None) && final(self)@ == disconnected(old(self)@)
                        && final(l2cap)@ == close_opt(close_opt(old(l2cap)@, old(self)@.control), old(self)@.interrupt)
                } else if t == HidMessageType::DataInput {
                    r matches Ok(Some(v)) && v@ == data@.drop_first()
                        && input_applied(old(self)@, final(self)@, old(self).info_of().device_type, data@.drop_first())
                        && final(l2cap)@ == old(l2cap)@
                } else {
                    r matches Ok(None) && final(self)@ == old(self)@ && final(l2cap)@ == old(l2cap)@
                }
            }),
    {
        if data.len() == 0 {
            return Err(BluetoothError::InvalidParameter);
        }
        let (msg_type, param) = Self::parse_header(data[0]);
        let payload = vstd::slice::slice_subrange(data, 1, data.len());
        assert(payload@ =~= data@.drop_first());
        match msg_type {
            HidMessageType::Handshake => {
                let _result = Self::handshake_result(param);
                Ok(None)
            },
            HidMessageType::HidControl => {
                if param == 0x03 {
                    self.state = HidState::Suspended;
                } else if param == 0x04 {
                    self.state = HidState::Connected;
                } else if param == 0x05 {
                    self.disconnect(l2cap);
                }
                Ok(None)
            },
            HidMessageType::DataInput => {
                self.handle_input_report(payload);
                Ok(Some(vstd::slice::slice_to_vec(payload)))
            },
            _ => Ok(None),
        }
    }

    /// Handle incoming interrupt data: an input report is kept (for a
    /// keyboard or mouse) and given back for the input handler.
    pub fn handle_interrupt(&mut self, data: &[u8]) -> (r: Result<Option<Vec<u8>>, BluetoothError>)
        ensures
            final(self).info_of() == old(self).info_of(),
            data@.len() == 0 ==> r is Err && r->Err_0 == BluetoothError::InvalidParameter && final(self)@ == old(self)@,
            data@.len() > 0 && message_type_of(data@[0]) == HidMessageType::DataInput ==> (r matches Ok(Some(v))
                && v@ == data@.drop_first() && input_applied(old(self)@, final(self)@, old(self).info_of().device_type, data@.drop_first())),
            data@.len() > 0 && message_type_of(data@[0]) != HidMessageType::DataInput ==> (r matches Ok(None)
                && final(self)@ == old(self)@),
    {
        if data.len() == 0 {
            return Err(BluetoothError::InvalidParameter);
        }
        let (msg_type, _param) = Self::parse_header(data[0]);
        if msg_type == HidMessageType::DataInput {
            let payload = vstd::slice::slice_subrange(data, 1, data.len());
            assert(payload@ =~= data@.drop_first());
            self.handle_input_report(payload);
            return Ok(Some(vstd::slice::slice_to_vec(payload)));
        }
        Ok(None)
    }

    /// Connect to device: the control channel, then the interrupt channel;
    /// refused unless disconnected.
    pub fn connect(&mut self, l2cap: &mut L2capManager, handle: u16) -> (r: Result<(), BluetoothError>)
        requires
            manager_wf(old(l2cap)@),
        ensures
            manager_wf(final(l2cap)@),
            final(self).info_of() == old(self).info_of(),
            old(self)@.state != HidState::Disconnected ==> r == Err::<(), BluetoothError>(BluetoothError::AlreadyConnected)
                && final(self)@ == old(self)@ && final(l2cap)@ == old(l2cap)@,
            old(self)@.state == HidState::Disconnected ==> ({
                let l1 = connected_on(old(l2cap)@, handle, PSM_HID_CONTROL);
                r == Ok::<(), BluetoothError>(()) && final(l2cap)@ == connected_on(l1, handle, PSM_HID_INTERRUPT)
                    && final(self)@ == (HidDeviceView {
                    state: HidState::Connected,
                    control: Some(old(l2cap)@.next_cid),
                    interrupt: Some(l1.next_cid),
                    ..old(self)@
                })
            }),
    {
        if self.state != HidState::Disconnected {
            return Err(BluetoothError::AlreadyConnected);
        }
        self.state = HidState::ConnectingControl;
        let control = match l2cap.connect(handle, PSM_HID_CONTROL) {
            Ok(c) => c,
            Err(e) => {
                return Err(e);
            },
        };
        self.control_channel = Some(control);
        self.state = HidState::ConnectingInterrupt;
        let interrupt = match l2cap.connect(handle, PSM_HID_INTERRUPT) {
            Ok(c) => c,
            Err(e) => {
                return Err(e);
            },
        };
        self.interrupt_channel = Some(interrupt);
        self.state = HidState::Connected;
        Ok(())
    }

    /// Disconnect from device: both channels are closed and let go.
    pub fn disconnect(&mut self, l2cap: &mut L2capManager)
        requires
            manager_wf(old(l2cap)@),
        ensures
            manager_wf(final(l2cap)@),
            final(self).info_of() == old(self).info_of(),
            final(self)@ == disconnected(old(self)@),
            final(l2cap)@ == close_opt(close_opt(old(l2cap)@, old(self)@.control), old(self)@.interrupt),
    {
        self.state = HidState::Disconnected;
        if let Some(cid) = self.control_channel.take() {
            l2cap.channel_close(cid);
        }
        if let Some(cid) = self.interrupt_channel.take() {
            l2cap.channel_close(cid);
        }
    }

    /// Get current keyboard state
    pub fn keyboard_state(&self) -> (r: BootKeyboardReport)
        ensures
            r == self@.keyboard,
    {
        self.keyboard_state
    }

    /// Get current mouse state
    pub fn mouse_state(&self) -> (r: BootMouseReport)
        ensures
            r == self@.mouse,
    {
        self.mouse_state
    }
}

impl HidDevice {
    /// Take the incoming control channel `cid`; the interrupt channel is
    /// awaited next.
    pub fn attach_control(&mut self, cid: u16)
        ensures
            final(self).info_of() == old(self).info_of(),
            final(self)@ == (HidDeviceView { control: Some(cid), state: HidState::ConnectingInterrupt, ..old(self)@ }),
    {
        self.control_channel = Some(cid);
        self.state = HidState::ConnectingInterrupt;
    }

    /// Take the incoming interrupt channel `cid`; the device is connected.
    pub fn attach_interrupt(&mut self, cid: u16)
        ensures
            final(self).info_of() == old(self).info_of(),
            final(self)@ == (HidDeviceView { interrupt: Some(cid), state: HidState::Connected, ..old(self)@ }),
    {
        self.interrupt_channel = Some(cid);
        self.state = HidState::Connected;
    }

    /// The device's address.
    pub fn address(&self) -> (r: BdAddr)
        ensures
            r == self@.address,
    {
        self.address
    }
}

// -----------------------------------------------------------------------------
// HID host
// -----------------------------------------------------------------------------

/// The order of device addresses: byte by byte from the first, that is, as
/// big-endian numbers.
pub open spec fn addr_value(a: BdAddr) -> nat {
    (((((a.0[0] as nat * 256 + a.0[1]) * 256 + a.0[2]) * 256 + a.0[3]) * 256 + a.0[4]) * 256 + a.0[5]) as nat
}

fn addr_key(a: &BdAddr) -> (r: u64)
    ensures
        r == addr_value(*a),
{
    let b = a.0;
    ((((b[0] as u64 * 256 + b[1] as u64) * 256 + b[2] as u64) * 256 + b[3] as u64) * 256 + b[4] as u64) * 256 + b[5] as u64
}

/// The device addresses rise strictly.
pub open spec fn addrs_sorted(s: Seq<HidDeviceView>) -> bool {
    forall|i: int, j: int| 0 <= i < j < s.len() ==> #[trigger] addr_value(s[i].address) < #[trigger] addr_value(s[j].address)
}

/// Index of the device with address value `k`, or -1.
pub open spec fn find_dev(s: Seq<HidDeviceView>, k: nat) -> int
    decreases s.len(),
{
    if s.len() == 0 {
        -1
    } else if addr_value(s.last().address) == k {
        s.len() - 1
    } else {
        find_dev(s.drop_last(), k)
    }
}

/// Index of the first device whose address is not below `k`.
pub open spec fn dev_lower_bound(s: Seq<HidDeviceView>, k: nat) -> int
    decreases s.len(),
{
    if s.len() == 0 || addr_value(s.last().address) < k {
        s.len() as int
    } else {
        dev_lower_bound(s.drop_last(), k)
    }
}

/// The devices with `d` put in under its address, replacing one there.
pub open spec fn insert_dev(s: Seq<HidDeviceView>, d: HidDeviceView) -> Seq<HidDeviceView> {
    let k = addr_value(d.address);
    let i = find_dev(s, k);
    if i >= 0 { s.update(i, d) } else { s.insert(dev_lower_bound(s, k), d) }
}

proof fn lemma_find_dev(s: Seq<HidDeviceView>, k: nat)
    ensures
        -1 <= find_dev(s, k) < s.len(),
        find_dev(s, k) >= 0 ==> addr_value(s[find_dev(s, k)].address) == k,
        find_dev(s, k) < 0 ==> forall|m: int| 0 <= m < s.len() ==> addr_value(#[trigger] s[m].address) != k,
    decreases s.len(),
{
    if s.len() > 0 && addr_value(s.last().address) != k {
        lemma_find_dev(s.drop_last(), k);
        assert forall|m: int| 0 <= m < s.len() - 1 implies #[trigger] s[m].address == s.drop_last()[m].address by {}
    }
}

proof fn lemma_dev_lower_bound(s: Seq<HidDeviceView>, k: nat)
    requires
        addrs_sorted(s),
    ensures
        0 <= dev_lower_bound(s, k) <= s.len(),
        forall|m: int| 0 <= m < dev_lower_bound(s, k) ==> addr_value(#[trigger] s[m].address) < k,
        forall|m: int| dev_lower_bound(s, k) <= m < s.len() ==> addr_value(#[trigger] s[m].address) >= k,
    decreases s.len(),
{
    if s.len() > 0 && addr_value(s.last().address) >= k {
        assert(addrs_sorted(s.drop_last()));
        lemma_dev_lower_bound(s.drop_last(), k);
        assert forall|m: int| 0 <= m < dev_lower_bound(s, k) implies addr_value(#[trigger] s[m].address) < k by {
            assert(s[m].address == s.drop_last()[m].address);
        }
        assert forall|m: int| dev_lower_bound(s, k) <= m < s.len() implies addr_value(#[trigger] s[m].address) >= k by {
            if m < s.len() - 1 {
                assert(s[m].address == s.drop_last()[m].address);
            }
        }
    } else if s.len() > 0 {
        assert forall|m: int| 0 <= m < s.len() implies addr_value(#[trigger] s[m].address) < k by {
            if m < s.len() - 1 {
                assert(addr_value(s[m].address) < addr_value(s.last().address));
            }
        }
    }
}

proof fn lemma_insert_dev_sorted(s: Seq<HidDeviceView>, d: HidDeviceView)
    requires
        addrs_sorted(s),
    ensures
        addrs_sorted(insert_dev(s, d)),
{
    let k = addr_value(d.address);
    lemma_find_dev(s, k);
    lemma_dev_lower_bound(s, k);
    let r = insert_dev(s, d);
    if find_dev(s, k) < 0 {
        let p = dev_lower_bound(s, k);
        assert forall|i: int, j: int| 0 <= i < j < r.len() implies #[trigger] addr_value(r[i].address) < #[trigger] addr_value(
            r[j].address,
        ) by {
            if j < p {
            } else if j == p {
            } else if i < p {
                assert(r[j] == s[j - 1]);
            } else if i == p {
                assert(r[j] == s[j - 1]);
            } else {
                assert(r[i] == s[i - 1] && r[j] == s[j - 1]);
            }
        }
    } else {
        let i0 = find_dev(s, k);
        assert forall|i: int, j: int| 0 <= i < j < r.len() implies #[trigger] addr_value(r[i].address) < #[trigger] addr_value(
            r[j].address,
        ) by {
            assert(addr_value(r[i].address) == addr_value(s[i].address));
            assert(addr_value(r[j].address) == addr_value(s[j].address));
        }
    }
}

proof fn lemma_remove_dev_sorted(s: Seq<HidDeviceView>, i: int)
    requires
        addrs_sorted(s),
        0 <= i < s.len(),
    ensures
        addrs_sorted(s.remove(i)),
{
    let r = s.remove(i);
    assert forall|a: int, b: int| 0 <= a < b < r.len() implies #[trigger] addr_value(r[a].address) < #[trigger] addr_value(
        r[b].address,
    ) by {
        let a2 = if a < i { a } else { a + 1 };
        let b2 = if b < i { b } else { b + 1 };
        assert(r[a] == s[a2] && r[b] == s[b2]);
    }
}

/// HID host manager
pub struct HidHost {
    devices: Vec<HidDevice>,
}

impl View for HidHost {
    type V = Seq<HidDeviceView>;

    closed spec fn view(&self) -> Seq<HidDeviceView> {
        self.devices@.map_values(|d: HidDevice| d@)
    }
}

impl HidHost {
    /// The host's invariant: one device per address, by ascending address.
    pub closed spec fn wf(&self) -> bool {
        addrs_sorted(self@)
    }

    /// A host without devices.
    pub fn new() -> (r: Self)
        ensures
            r@ == Seq::<HidDeviceView>::empty(),
            r.wf(),
    {
        let r = HidHost { devices: Vec::new() };
        assert(r@ =~= Seq::<HidDeviceView>::empty());
        r
    }

    fn find_device(&self, address: &BdAddr) -> (r: Option<usize>)
        ensures
            match r {
                Some(i) => i == find_dev(self@, addr_value(*address)) && i < self@.len(),
                None => find_dev(self@, addr_value(*address)) < 0,
            },
    {
        let k = addr_key(address);
        proof {
            lemma_find_dev(self@, k as nat);
        }
        let mut i: usize = self.devices.len();
        assert(self@.take(i as int) =~= self@);
        while i > 0
            invariant
                i <= self.devices@.len(),
                self@.len() == self.devices@.len(),
                k == addr_value(*address),
                find_dev(self@, k as nat) == find_dev(self@.take(i as int), k as nat),
            decreases i,
        {
            assert(self@.take(i as int).drop_last() =~= self@.take(i - 1));
            assert(self@[i - 1] == self.devices@[i - 1]@);
            if addr_key(&self.devices[i - 1].address) == k {
                return Some(i - 1);
            }
            i = i - 1;
        }
        None
    }

    /// Put a device in under its address, replacing one there.
    fn put_device(&mut self, device: HidDevice)
        requires
            old(self).wf(),
        ensures
            final(self)@ == insert_dev(old(self)@, device@),
            final(self).wf(),
    {
        proof {
            lemma_insert_dev_sorted(self@, device@);
            lemma_dev_lower_bound(self@, addr_value(device@.address));
        }
        let ghost dv = device@;
        let k = addr_key(&device.address);
        match self.find_device(&device.address) {
            Some(i) => {
                let _ = self.devices.remove(i);
                self.devices.insert(i, device);
                assert(self@ =~= old(self)@.update(i as int, dv));
            },
            None => {
                let mut p: usize = self.devices.len();
                while p > 0 && addr_key(&self.devices[p - 1].address) >= k
                    invariant
                        p <= self.devices@.len(),
                        self@ == old(self)@,
                        addrs_sorted(self@),
                        k == addr_value(dv.address),
                        dev_lower_bound(self@, k as nat) <= p,
                    decreases p,
                {
                    proof {
                        lemma_dev_lower_bound(self@, k as nat);
                        assert(self@[p - 1] == self.devices@[p - 1]@);
                        assert(addr_value(self@[p - 1].address) >= k);
                    }
                    p = p - 1;
                }
                proof {
                    lemma_dev_lower_bound(self@, k as nat);
                    if p > 0 {
                        assert(self@[p - 1] == self.devices@[p - 1]@);
                        assert(addr_value(self@[p - 1].address) < k);
                    }
                }
                assert(p == dev_lower_bound(self@, k as nat));
                self.devices.insert(p, device);
                assert(self@ =~= old(self)@.insert(p as int, dv));
            },
        }
    }

    /// Connect to HID device: a device already connected is kept; otherwise
    /// a new device connects its two channels and takes the address's place.
    pub fn connect(&mut self, l2cap: &mut L2capManager, address: BdAddr, handle: u16) -> (r: Result<(), BluetoothError>)
        requires
            old(self).wf(),
            manager_wf(old(l2cap)@),
        ensures
            final(self).wf(),
            manager_wf(final(l2cap)@),
            r is Ok,
            ({
                let i = find_dev(old(self)@, addr_value(address));
                if i >= 0 && old(self)@[i].state == HidState::Connected {
                    final(self)@ == old(self)@ && final(l2cap)@ == old(l2cap)@
                } else {
                    let l1 = connected_on(old(l2cap)@, handle, PSM_HID_CONTROL);
                    let d = final(self)@[find_dev(final(self)@, addr_value(address))];
                    &&& final(l2cap)@ == connected_on(l1, handle, PSM_HID_INTERRUPT)
                    &&& final(self)@ == insert_dev(old(self)@, d)
                    &&& d.address == address && d.state == HidState::Connected && d.protocol == HidProtocol::Report
                    &&& d.control == Some(old(l2cap)@.next_cid) && d.interrupt == Some(l1.next_cid)
                    &&& d.keyboard.modifiers.0 == 0 && d.keyboard.reserved == 0
                    &&& (forall|j: int| 0 <= j < 6 ==> d.keyboard.keys@[j] == 0)
                    &&& d.mouse.buttons.0 == 0 && d.mouse.x == 0 && d.mouse.y == 0
                    &&& d.idle_rate == 0 && d.reconnect_enabled
                }
            }),
    {
        if let Some(i) = self.find_device(&address) {
            assert(old(self)@[i as int] == self.devices@[i as int]@);
            if self.devices[i].state() == HidState::Connected {
                return Ok(());
            }
        }
        let mut device = HidDevice::new(address);
        let _ = device.connect(l2cap, handle);
        let ghost dv = device@;
        self.put_device(device);
        proof {
            lemma_insert_dev_sorted(old(self)@, dv);
            let f = find_dev(self@, addr_value(address));
            lemma_find_dev(self@, addr_value(address));
            lemma_find_dev(old(self)@, addr_value(address));
            lemma_dev_lower_bound(old(self)@, addr_value(address));
            let p = if find_dev(old(self)@, addr_value(address)) >= 0 {
                find_dev(old(self)@, addr_value(address))
            } else {
                dev_lower_bound(old(self)@, addr_value(address))
            };
            assert(self@[p] == dv);
            if f != p {
                if f < p {
                    assert(addr_value(self@[f].address) < addr_value(self@[p].address));
                } else {
                    assert(addr_value(self@[p].address) < addr_value(self@[f].address));
                }
            }
        }
        Ok(())
    }

    /// Disconnect HID device: it is removed and its channels closed.
    pub fn disconnect(&mut self, l2cap: &mut L2capManager, address: BdAddr) -> (r: Result<(), BluetoothError>)
        requires
            old(self).wf(),
            manager_wf(old(l2cap)@),
        ensures
            final(self).wf(),
            manager_wf(final(l2cap)@),
            ({
                let i = find_dev(old(self)@, addr_value(address));
                let d = old(self)@[i];
                if i >= 0 {
                    r is Ok && final(self)@ == old(self)@.remove(i) && final(l2cap)@ == close_opt(
                        close_opt(old(l2cap)@, d.control),
                        d.interrupt,
                    )
                } else {
                    r == Err::<(), BluetoothError>(BluetoothError::NotConnected) && final(self)@ == old(self)@
                        && final(l2cap)@ == old(l2cap)@
                }
            }),
    {
        match self.find_device(&address) {
            Some(i) => {
                proof {
                    lemma_remove_dev_sorted(self@, i as int);
                }
                let mut device = self.devices.remove(i);
                assert(self@ =~= old(self)@.remove(i as int));
                device.disconnect(l2cap);
                Ok(())
            },
            None => Err(BluetoothError::NotConnected),
        }
    }

    /// Get connected device
    pub fn get_device(&self, address: &BdAddr) -> (r: Option<&HidDevice>)
        ensures
            match r {
                Some(d) => find_dev(self@, addr_value(*address)) >= 0 && d@ == self@[find_dev(self@, addr_value(*address))],
                None => find_dev(self@, addr_value(*address)) < 0,
            },
    {
        match self.find_device(address) {
            Some(i) => Some(&self.devices[i]),
            None => None,
        }
    }

    /// Get all connected devices, by ascending address
    pub fn devices(&self) -> (r: &[HidDevice])
        ensures
            r@.map_values(|d: HidDevice| d@) == self@,
    {
        self.devices.as_slice()
    }

    /// Handle incoming control connection: the device (new if there is
    /// none) takes the channel and awaits the interrupt channel.
    pub fn handle_control_connection(&mut self, cid: u16, address: BdAddr) -> (r: Result<(), BluetoothError>)
        requires
            old(self).wf(),
        ensures
            final(self).wf(),
            r is Ok,
            ({
                let i = find_dev(old(self)@, addr_value(address));
                if i >= 0 {
                    final(self)@ == old(self)@.update(
                        i,
                        HidDeviceView { control: Some(cid), state: HidState::ConnectingInterrupt, ..old(self)@[i] },
                    )
                } else {
                    let d = final(self)@[find_dev(final(self)@, addr_value(address))];
                    &&& final(self)@ == insert_dev(old(self)@, d)
                    &&& d.address == address && d.state == HidState::ConnectingInterrupt && d.protocol == HidProtocol::Report
                    &&& d.control == Some(cid) && d.interrupt.is_none()
                    &&& d.keyboard.modifiers.0 == 0 && d.keyboard.reserved == 0
                    &&& (forall|j: int| 0 <= j < 6 ==> d.keyboard.keys@[j] == 0)
                    &&& d.mouse.buttons.0 == 0 && d.mouse.x == 0 && d.mouse.y == 0
                    &&& d.idle_rate == 0 && d.reconnect_enabled
                }
            }),
    {
        match self.find_device(&address) {
            Some(i) => {
                proof {
                    lemma_find_dev(self@, addr_value(address));
                }
                let mut device = self.devices.remove(i);
                device.attach_control(cid);
                let ghost dv = device@;
                self.devices.insert(i, device);
                assert(self@ =~= old(self)@.update(i as int, dv));
                assert(addrs_sorted(self@)) by {
                    assert forall|a: int, b: int| 0 <= a < b < self@.len() implies #[trigger] addr_value(self@[a].address)
                        < #[trigger] addr_value(self@[b].address) by {
                        assert(self@[a].address == old(self)@[a].address && self@[b].address == old(self)@[b].address);
                    }
                }
            },
            None => {
                let mut device = HidDevice::new(address);
                device.attach_control(cid);
                let ghost dv = device@;
                self.put_device(device);
                proof {
                    lemma_find_dev(old(self)@, addr_value(address));
                    lemma_dev_lower_bound(old(self)@, addr_value(address));
                    lemma_find_dev(self@, addr_value(address));
                    let p = dev_lower_bound(old(self)@, addr_value(address));
                    let f = find_dev(self@, addr_value(address));
                    assert(self@[p] == dv);
                    if f != p {
                        if f < p {
                            assert(addr_value(self@[f].address) < addr_value(self@[p].address));
                        } else {
                            assert(addr_value(self@[p].address) < addr_value(self@[f].address));
                        }
                    }
                }
            },
        }
        Ok(())
    }

    /// Handle incoming interrupt connection: a known device takes the
    /// channel and is connected; for an unknown address nothing happens.
    pub fn handle_interrupt_connection(&mut self, cid: u16, address: BdAddr) -> (r: Result<(), BluetoothError>)
        requires
            old(self).wf(),
        ensures
            final(self).wf(),
            r is Ok,
            ({
                let i = find_dev(old(self)@, addr_value(address));
                final(self)@ == if i >= 0 {
                    old(self)@.update(i, HidDeviceView { interrupt: Some(cid), state: HidState::Connected, ..old(self)@[i] })
                } else {
                    old(self)@
                }
            }),
    {
        match self.find_device(&address) {
            Some(i) => {
                let mut device = self.devices.remove(i);
                device.attach_interrupt(cid);
                let ghost dv = device@;
                self.devices.insert(i, device);
                assert(self@ =~= old(self)@.update(i as int, dv));
                assert(addrs_sorted(self@)) by {
                    assert forall|a: int, b: int| 0 <= a < b < self@.len() implies #[trigger] addr_value(self@[a].address)
                        < #[trigger] addr_value(self@[b].address) by {
                        assert(self@[a].address == old(self)@[a].address && self@[b].address == old(self)@[b].address);
                    }
                }
            },
            None => {},
        }
        Ok(())
    }
}

// -----------------------------------------------------------------------------
// HID peripheral
// -----------------------------------------------------------------------------

/// What the peripheral side holds.
pub struct HidPeripheralView {
    /// The protocol byte the host last set (0 is boot protocol)
    pub protocol: u8,
    pub host_address: Option<BdAddr>,
    pub control: Option<u16>,
    pub interrupt: Option<u16>,
    pub idle_rate: u8,
}

/// HID device (peripheral) implementation
pub struct HidPeripheral {
    /// Device info
    pub info: HidDeviceInfo,
    protocol: u8,
    host_address: Option<BdAddr>,
    control_channel: Option<u16>,
    interrupt_channel: Option<u16>,
    idle_rate: u8,
}

impl View for HidPeripheral {
    type V = HidPeripheralView;

    closed spec fn view(&self) -> HidPeripheralView {
        HidPeripheralView {
            protocol: self.protocol,
            host_address: self.host_address,
            control: self.control_channel,
            interrupt: self.interrupt_channel,
            idle_rate: self.idle_rate,
        }
    }
}

/// The answer to a control message, and the peripheral after it: a report
/// request gets an empty input report of the asked type (with the report
/// id, if not zero); a protocol or idle request gets the current value; a
/// set request is taken and acknowledged; anything else is refused as
/// unsupported.
pub open spec fn peripheral_control(v: HidPeripheralView, data: Seq<u8>) -> (HidPeripheralView, Seq<u8>) {
    let t = data[0] >> 4u8;
    let p = data[0] & 0x0Fu8;
    let ok = hid_header(HidMessageType::Handshake, HidHandshake::Successful.code());
    if t == 4 {
        let id = if data.len() > 1 { data[1] } else { 0u8 };
        (v, seq![hid_header(HidMessageType::DataInput, p & 0x03u8)] + if id != 0 { seq![id] } else { Seq::empty() })
    } else if t == 5 {
        (v, seq![ok])
    } else if t == 6 {
        (v, seq![hid_header(HidMessageType::DataInput, 0), v.protocol])
    } else if t == 7 {
        (HidPeripheralView { protocol: p, ..v }, seq![ok])
    } else if t == 8 {
        (v, seq![hid_header(HidMessageType::DataInput, 0), v.idle_rate])
    } else if t == 9 {
        (HidPeripheralView { idle_rate: p, ..v }, seq![ok])
    } else {
        (v, seq![hid_header(HidMessageType::Handshake, HidHandshake::ErrUnsupportedRequest.code())])
    }
}

/// A host that sets the protocol reads back what it set.
pub proof fn lemma_set_then_get_protocol(v: HidPeripheralView, p: u8)
    requires
        p < 16,
    ensures
        peripheral_control(
            peripheral_control(v, seq![hid_header(HidMessageType::SetProtocol, p)]).0,
            seq![hid_header(HidMessageType::GetProtocol, 0)],
        ).1 == seq![hid_header(HidMessageType::DataInput, 0), p],
{
    let h = hid_header(HidMessageType::SetProtocol, p);
    let g = hid_header(HidMessageType::GetProtocol, 0);
    assert(h >> 4u8 == 7 && h & 0x0Fu8 == p && g >> 4u8 == 6) by (bit_vector)
        requires
            h == ((7u8 << 4u8) | (p & 0x0Fu8)) as u8,
            g == ((6u8 << 4u8) | (0u8 & 0x0Fu8)) as u8,
            p < 16,
    ;
}

/// A host that sets the idle rate reads back what it set.
pub proof fn lemma_set_then_get_idle(v: HidPeripheralView, rate: u8)
    requires
        rate < 16,
    ensures
        peripheral_control(
            peripheral_control(v, seq![hid_header(HidMessageType::SetIdle, rate)]).0,
            seq![hid_header(HidMessageType::GetIdle, 0)],
        ).1 == seq![hid_header(HidMessageType::DataInput, 0), rate],
{
    let h = hid_header(HidMessageType::SetIdle, rate);
    let g = hid_header(HidMessageType::GetIdle, 0);
    assert(h >> 4u8 == 9 && h & 0x0Fu8 == rate && g >> 4u8 == 8) by (bit_vector)
        requires
            h == ((9u8 << 4u8) | (rate & 0x0Fu8)) as u8,
            g == ((8u8 << 4u8) | (0u8 & 0x0Fu8)) as u8,
            rate < 16,
    ;
}

/// The header of an input report on the interrupt channel.
pub open spec fn input_header() -> u8 {
    hid_header(HidMessageType::DataInput, HidReportType::Input.code())
}

impl HidPeripheral {
    /// The device information.
    pub closed spec fn info_of(&self) -> HidDeviceInfo {
        self.info
    }

    /// A peripheral with `info`, in report protocol, not connected.
    pub fn new(info: HidDeviceInfo) -> (r: Self)
        ensures
            r.info_of() == info,
            r@ == (HidPeripheralView { protocol: 1, host_address: None, control: None, interrupt: None, idle_rate: 0 }),
    {
        HidPeripheral {
            info,
            protocol: HidProtocol::Report.to_u8(),
            host_address: None,
            control_channel: None,
            interrupt_channel: None,
            idle_rate: 0,
        }
    }

    /// Create a keyboard peripheral: a boot keyboard named `name`.
    pub fn keyboard(name: &str) -> (r: Self)
        ensures
            r.info_of().subclass == HidDeviceSubclass::BootInterface,
            r.info_of().device_type == HidDeviceType::Keyboard,
            r.info_of().name@ == name@,
            r.info_of().descriptor.raw@ == super::boot_keyboard_descriptor(),
            r@ == (HidPeripheralView { protocol: 1, host_address: None, control: None, interrupt: None, idle_rate: 0 }),
    {
        let mut info = HidDeviceInfo::new();
        info.subclass = HidDeviceSubclass::BootInterface;
        info.device_type = HidDeviceType::Keyboard;
        info.name = name.to_owned();
        info.descriptor = HidReportDescriptor::boot_keyboard();
        Self::new(info)
    }

    /// Create a mouse peripheral: a boot mouse named `name`.
    pub fn mouse(name: &str) -> (r: Self)
        ensures
            r.info_of().subclass == HidDeviceSubclass::BootInterface,
            r.info_of().device_type == HidDeviceType::Mouse,
            r.info_of().name@ == name@,
            r.info_of().descriptor.raw@ == super::boot_mouse_descriptor(),
            r@ == (HidPeripheralView { protocol: 1, host_address: None, control: None, interrupt: None, idle_rate: 0 }),
    {
        let mut info = HidDeviceInfo::new();
        info.subclass = HidDeviceSubclass::BootInterface;
        info.device_type = HidDeviceType::Mouse;
        info.name = name.to_owned();
        info.descriptor = HidReportDescriptor::boot_mouse();
        Self::new(info)
    }

    /// Current protocol mode: boot for 0, report otherwise.
    pub fn protocol(&self) -> (r: HidProtocol)
        ensures
            r == (if self@.protocol == 0 { HidProtocol::Boot } else { HidProtocol::Report }),
    {
        if self.protocol == 0 {
            HidProtocol::Boot
        } else {
            HidProtocol::Report
        }
    }

    /// Whether a host is connected.
    pub fn is_connected(&self) -> (r: bool)
        ensures
            r == self@.host_address.is_some(),
    {
        self.host_address.is_some()
    }

    /// Send input report: the input header, the report id unless it is
    /// zero, then `data`, queued on the interrupt channel.
    pub fn send_input_report(&self, l2cap: &mut L2capManager, report_id: u8, data: &[u8]) -> (r: Result<(), BluetoothError>)
        requires
            manager_wf(old(l2cap)@),
        ensures
            manager_wf(final(l2cap)@),
            match self@.interrupt {
                None => r == Err::<(), BluetoothError>(BluetoothError::NotConnected) && final(l2cap)@ == old(l2cap)@,
                Some(cid) => (final(l2cap)@, r) == queued_on(
                    old(l2cap)@,
                    cid,
                    seq![input_header()] + (if report_id != 0 { seq![report_id] } else { Seq::empty() }) + data@,
                ),
            },
    {
        let cid = match self.interrupt_channel {
            Some(c) => c,
            None => {
                return Err(BluetoothError::NotConnected);
            },
        };
        let mut packet: Vec<u8> = Vec::new();
        packet.push(HidDevice::build_header(HidMessageType::DataInput, HidReportType::Input.to_u8()));
        if report_id != 0 {
            packet.push(report_id);
        }
        crate::wire::extend_bytes(&mut packet, data);
        assert(packet@ =~= seq![input_header()] + (if report_id != 0 { seq![report_id] } else { Seq::empty() }) + data@);
        l2cap.channel_send(cid, packet)
    }

    /// Send keyboard report
    pub fn send_keyboard_report(&self, l2cap: &mut L2capManager, report: &BootKeyboardReport) -> (r: Result<(), BluetoothError>)
        requires
            manager_wf(old(l2cap)@),
        ensures
            manager_wf(final(l2cap)@),
            match self@.interrupt {
                None => r == Err::<(), BluetoothError>(BluetoothError::NotConnected) && final(l2cap)@ == old(l2cap)@,
                Some(cid) => (final(l2cap)@, r) == queued_on(old(l2cap)@, cid, seq![input_header()] + keyboard_bytes(*report)),
            },
    {
        let bytes = report.to_bytes();
        assert(seq![input_header()] + Seq::<u8>::empty() + bytes@ =~= seq![input_header()] + keyboard_bytes(*report));
        self.send_input_report(l2cap, 0, bytes.as_slice())
    }

    /// Send mouse report
    pub fn send_mouse_report(&self, l2cap: &mut L2capManager, report: &BootMouseReport) -> (r: Result<(), BluetoothError>)
        requires
            manager_wf(old(l2cap)@),
        ensures
            manager_wf(final(l2cap)@),
            match self@.interrupt {
                None => r == Err::<(), BluetoothError>(BluetoothError::NotConnected) && final(l2cap)@ == old(l2cap)@,
                Some(cid) => (final(l2cap)@, r) == queued_on(
                    old(l2cap)@,
                    cid,
                    seq![input_header(), report.buttons.0, report.x as u8, report.y as u8],
                ),
            },
    {
        let bytes = report.to_bytes();
        assert(seq![input_header()] + Seq::<u8>::empty() + bytes@ =~= seq![
            input_header(),
            report.buttons.0,
            report.x as u8,
            report.y as u8,
        ]);
        self.send_input_report(l2cap, 0, bytes.as_slice())
    }

    /// Handle incoming control message; gives the answer to send.
    pub fn handle_control(&mut self, data: &[u8]) -> (r: Result<Vec<u8>, BluetoothError>)
        ensures
            final(self).info_of() == old(self).info_of(),
            data@.len() == 0 ==> r == Err::<Vec<u8>, BluetoothError>(BluetoothError::InvalidParameter) && final(self)@ == old(self)@,
            data@.len() > 0 ==> (r matches Ok(v) && (final(self)@, v@) == peripheral_control(old(self)@, data@)),
    {
        if data.len() == 0 {
            return Err(BluetoothError::InvalidParameter);
        }
        let header = data[0];
        let msg_type = header >> 4u8;
        let param = header & 0x0F;
        let handshake_ok = HidDevice::build_header(HidMessageType::Handshake, HidHandshake::Successful.to_u8());
        if msg_type == 0x04 {
            let report_type = param & 0x03;
            let report_id = if data.len() > 1 { data[1] } else { 0 };
            let response_header = HidDevice::build_header(HidMessageType::DataInput, report_type);
            let mut response: Vec<u8> = Vec::new();
            response.push(response_header);
            if report_id != 0 {
                response.push(report_id);
            }
            assert(response@ =~= peripheral_control(old(self)@, data@).1);
            Ok(response)
        } else if msg_type == 0x05 {
            Ok(vec![handshake_ok])
        } else if msg_type == 0x06 {
            let response_header = HidDevice::build_header(HidMessageType::DataInput, 0);
            Ok(vec![response_header, self.protocol])
        } else if msg_type == 0x07 {
            self.protocol = param;
            Ok(vec![handshake_ok])
        } else if msg_type == 0x08 {
            let response_header = HidDevice::build_header(HidMessageType::DataInput, 0);
            Ok(vec![response_header, self.idle_rate])
        } else if msg_type == 0x09 {
            self.idle_rate = param;
            Ok(vec![handshake_ok])
        } else {
            let handshake = HidDevice::build_header(HidMessageType::Handshake, HidHandshake::ErrUnsupportedRequest.to_u8());
            Ok(vec![handshake])
        }
    }

    /// Accept incoming connection from `address` on the two channels.
    pub fn accept_connection(&mut self, address: BdAddr, control: u16, interrupt: u16)
        ensures
            final(self).info_of() == old(self).info_of(),
            final(self)@ == (HidPeripheralView {
                host_address: Some(address),
                control: Some(control),
                interrupt: Some(interrupt),
                ..old(self)@
            }),
    {
        self.host_address = Some(address);
        self.control_channel = Some(control);
        self.interrupt_channel = Some(interrupt);
    }

    /// Disconnect from host: both channels are closed and let go.
    pub fn disconnect(&mut self, l2cap: &mut L2capManager)
        requires
            manager_wf(old(l2cap)@),
        ensures
            manager_wf(final(l2cap)@),
            final(self).info_of() == old(self).info_of(),
            final(self)@ == (HidPeripheralView { host_address: None, control: None, interrupt: None, ..old(self)@ }),
            final(l2cap)@ == close_opt(close_opt(old(l2cap)@, old(self)@.control), old(self)@.interrupt),
    {
        self.host_address = None;
        if let Some(cid) = self.control_channel.take() {
            l2cap.channel_close(cid);
        }
        if let Some(cid) = self.interrupt_channel.take() {
            l2cap.channel_close(cid);
        }
    }
}

} // verus!
