//! Bluetooth HID: boot protocol reports, report descriptor items and the
//! report descriptor parser.
use vstd::prelude::*;

pub mod device;

use crate::wire::{bit_set, test_bit, make_u16, make_u32, from_le16, from_le32, copy_range, extend_bytes};

verus! {

/// HID protocol modes
#[derive(Clone, Copy, Debug, PartialEq, Eq, Structural)]
pub enum HidProtocol {
    /// Boot protocol mode (simplified for BIOS)
    Boot,
    /// Report protocol mode (full feature set)
    Report,
}

impl HidProtocol {
    /// The numeric code of this value on the wire.
    pub open spec fn code(self) -> u8 {
        match self {
            HidProtocol::Boot => 0x0,
            HidProtocol::Report => 0x1,
        }
    }

    /// The numeric code of this value on the wire.
    pub fn to_u8(&self) -> (r: u8)
        ensures
            r == self.code(),
    {
        match self {
            HidProtocol::Boot => 0x0,
            HidProtocol::Report => 0x1,
        }
    }

    /// The value whose code is `v`, if any.
    pub open spec fn decode(v: u8) -> Option<HidProtocol> {
        if v == 0x0 { Some(HidProtocol::Boot) } else { if v == 0x1 { Some(HidProtocol::Report) } else { None } }
    }

    /// The value whose code is `v`, if any.
    pub fn from_u8(v: u8) -> (r: Option<HidProtocol>)
        ensures
            r == HidProtocol::decode(v),
    {
        match v {
            0x0 => Some(HidProtocol::Boot),
            0x1 => Some(HidProtocol::Report),
            _ => None,
        }
    }

    /// Decoding the code of a value gives the value back.
    pub proof fn lemma_code_roundtrip(self)
        ensures
            HidProtocol::decode(self.code()) == Some(self),
    {
    }

}

/// HID report types
#[derive(Clone, Copy, Debug, PartialEq, Eq, Structural)]
pub enum HidReportType {
    /// Reserved
    Reserved,
    /// Input report (device to host)
    Input,
    /// Output report (host to device)
    Output,
    /// Feature report (bidirectional)
    Feature,
}

impl HidReportType {
    /// The numeric code of this value on the wire.
    pub open spec fn code(self) -> u8 {
        match self {
            HidReportType::Reserved => 0x0,
            HidReportType::Input => 0x1,
            HidReportType::Output => 0x2,
            HidReportType::Feature => 0x3,
        }
    }

    /// The numeric code of this value on the wire.
    pub fn to_u8(&self) -> (r: u8)
        ensures
            r == self.code(),
    {
        match self {
            HidReportType::Reserved => 0x0,
            HidReportType::Input => 0x1,
            HidReportType::Output => 0x2,
            HidReportType::Feature => 0x3,
        }
    }

    /// The value whose code is `v`, if any.
    pub open spec fn decode(v: u8) -> Option<HidReportType> {
        if v == 0x0 { Some(HidReportType::Reserved) } else { if v == 0x1 { Some(HidReportType::Input) } else { if v == 0x2 { Some(HidReportType::Output) } else { if v == 0x3 { Some(HidReportType::Feature) } else { None } } } }
    }

    /// The value whose code is `v`, if any.
    pub fn from_u8(v: u8) -> (r: Option<HidReportType>)
        ensures
            r == HidReportType::decode(v),
    {
        match v {
            0x0 => Some(HidReportType::Reserved),
            0x1 => Some(HidReportType::Input),
            0x2 => Some(HidReportType::Output),
            0x3 => Some(HidReportType::Feature),
            _ => None,
        }
    }

    /// Decoding the code of a value gives the value back.
    pub proof fn lemma_code_roundtrip(self)
        ensures
            HidReportType::decode(self.code()) == Some(self),
    {
    }

}

/// HID handshake result codes
#[derive(Clone, Copy, Debug, PartialEq, Eq, Structural)]
pub enum HidHandshake {
    /// Successful
    Successful,
    /// Not ready
    NotReady,
    /// Invalid report ID
    ErrInvalidReportId,
    /// Unsupported request
    ErrUnsupportedRequest,
    /// Invalid parameter
    ErrInvalidParameter,
    /// Unknown error
    ErrUnknown,
    /// Fatal error
    ErrFatal,
}

impl HidHandshake {
    /// The numeric code of this value on the wire.
    pub open spec fn code(self) -> u8 {
        match self {
            HidHandshake::Successful => 0x0,
            HidHandshake::NotReady => 0x1,
            HidHandshake::ErrInvalidReportId => 0x2,
            HidHandshake::ErrUnsupportedRequest => 0x3,
            HidHandshake::ErrInvalidParameter => 0x4,
            HidHandshake::ErrUnknown => 0xe,
            HidHandshake::ErrFatal => 0xf,
        }
    }

    /// The numeric code of this value on the wire.
    pub fn to_u8(&self) -> (r: u8)
        ensures
            r == self.code(),
    {
        match self {
            HidHandshake::Successful => 0x0,
            HidHandshake::NotReady => 0x1,
            HidHandshake::ErrInvalidReportId => 0x2,
            HidHandshake::ErrUnsupportedRequest => 0x3,
            HidHandshake::ErrInvalidParameter => 0x4,
            HidHandshake::ErrUnknown => 0xe,
            HidHandshake::ErrFatal => 0xf,
        }
    }

    /// The value whose code is `v`, if any.
    pub open spec fn decode(v: u8) -> Option<HidHandshake> {
        if v == 0x0 { Some(HidHandshake::Successful) } else { if v == 0x1 { Some(HidHandshake::NotReady) } else { if v == 0x2 { Some(HidHandshake::ErrInvalidReportId) } else { if v == 0x3 { Some(HidHandshake::ErrUnsupportedRequest) } else { if v == 0x4 { Some(HidHandshake::ErrInvalidParameter) } else { if v == 0xe { Some(HidHandshake::ErrUnknown) } else { if v == 0xf { Some(HidHandshake::ErrFatal) } else { None } } } } } } }
    }

    /// The value whose code is `v`, if any.
    pub fn from_u8(v: u8) -> (r: Option<HidHandshake>)
        ensures
            r == HidHandshake::decode(v),
    {
        match v {
            0x0 => Some(HidHandshake::Successful),
            0x1 => Some(HidHandshake::NotReady),
            0x2 => Some(HidHandshake::ErrInvalidReportId),
            0x3 => Some(HidHandshake::ErrUnsupportedRequest),
            0x4 => Some(HidHandshake::ErrInvalidParameter),
            0xe => Some(HidHandshake::ErrUnknown),
            0xf => Some(HidHandshake::ErrFatal),
            _ => None,
        }
    }

    /// Decoding the code of a value gives the value back.
    pub proof fn lemma_code_roundtrip(self)
        ensures
            HidHandshake::decode(self.code()) == Some(self),
    {
    }

}

/// HID transaction message types
#[derive(Clone, Copy, Debug, PartialEq, Eq, Structural)]
pub enum HidMessageType {
    /// Handshake message
    Handshake,
    /// HID control message
    HidControl,
    /// Reserved
    Reserved2,
    /// Reserved
    Reserved3,
    /// Get report request
    GetReport,
    /// Set report request
    SetReport,
    /// Get protocol request
    GetProtocol,
    /// Set protocol request
    SetProtocol,
    /// Get idle request
    GetIdle,
    /// Set idle request
    SetIdle,
    /// Data message (output)
    DataOutput,
    /// Data message (input)
    DataInput,
    /// Datc message
    Datc,
}

impl HidMessageType {
    /// The numeric code of this value on the wire.
    pub open spec fn code(self) -> u8 {
        match self {
            HidMessageType::Handshake => 0x0,
            HidMessageType::HidControl => 0x1,
            HidMessageType::Reserved2 => 0x2,
            HidMessageType::Reserved3 => 0x3,
            HidMessageType::GetReport => 0x4,
            HidMessageType::SetReport => 0x5,
            HidMessageType::GetProtocol => 0x6,
            HidMessageType::SetProtocol => 0x7,
            HidMessageType::GetIdle => 0x8,
            HidMessageType::SetIdle => 0x9,
            HidMessageType::DataOutput => 0xa,
            HidMessageType::DataInput => 0xb,
            HidMessageType::Datc => 0xc,
        }
    }

    /// The numeric code of this value on the wire.
    pub fn to_u8(&self) -> (r: u8)
        ensures
            r == self.code(),
    {
        match self {
            HidMessageType::Handshake => 0x0,
            HidMessageType::HidControl => 0x1,
            HidMessageType::Reserved2 => 0x2,
            HidMessageType::Reserved3 => 0x3,
            HidMessageType::GetReport => 0x4,
            HidMessageType::SetReport => 0x5,
            HidMessageType::GetProtocol => 0x6,
            HidMessageType::SetProtocol => 0x7,
            HidMessageType::GetIdle => 0x8,
            HidMessageType::SetIdle => 0x9,
            HidMessageType::DataOutput => 0xa,
            HidMessageType::DataInput => 0xb,
            HidMessageType::Datc => 0xc,
        }
    }

    /// The value whose code is `v`, if any.
    pub open spec fn decode(v: u8) -> Option<HidMessageType> {
        if v == 0x0 { Some(HidMessageType::Handshake) } else { if v == 0x1 { Some(HidMessageType::HidControl) } else { if v == 0x2 { Some(HidMessageType::Reserved2) } else { if v == 0x3 { Some(HidMessageType::Reserved3) } else { if v == 0x4 { Some(HidMessageType::GetReport) } else { if v == 0x5 { Some(HidMessageType::SetReport) } else { if v == 0x6 { Some(HidMessageType::GetProtocol) } else { if v == 0x7 { Some(HidMessageType::SetProtocol) } else { if v == 0x8 { Some(HidMessageType::GetIdle) } else { if v == 0x9 { Some(HidMessageType::SetIdle) } else { if v == 0xa { Some(HidMessageType::DataOutput) } else { if v == 0xb { Some(HidMessageType::DataInput) } else { if v == 0xc { Some(HidMessageType::Datc) } else { None } } } } } } } } } } } } }
    }

    /// The value whose code is `v`, if any.
    pub fn from_u8(v: u8) -> (r: Option<HidMessageType>)
        ensures
            r == HidMessageType::decode(v),
    {
        match v {
            0x0 => Some(HidMessageType::Handshake),
            0x1 => Some(HidMessageType::HidControl),
            0x2 => Some(HidMessageType::Reserved2),
            0x3 => Some(HidMessageType::Reserved3),
            0x4 => Some(HidMessageType::GetReport),
            0x5 => Some(HidMessageType::SetReport),
            0x6 => Some(HidMessageType::GetProtocol),
            0x7 => Some(HidMessageType::SetProtocol),
            0x8 => Some(HidMessageType::GetIdle),
            0x9 => Some(HidMessageType::SetIdle),
            0xa => Some(HidMessageType::DataOutput),
            0xb => Some(HidMessageType::DataInput),
            0xc => Some(HidMessageType::Datc),
            _ => None,
        }
    }

    /// Decoding the code of a value gives the value back.
    pub proof fn lemma_code_roundtrip(self)
        ensures
            HidMessageType::decode(self.code()) == Some(self),
    {
    }

}

/// HID control operations
#[derive(Clone, Copy, Debug, PartialEq, Eq, Structural)]
pub enum HidControlOp {
    /// No operation
    Nop,
    /// Hard reset
    HardReset,
    /// Soft reset
    SoftReset,
    /// Suspend
    Suspend,
    /// Exit suspend
    ExitSuspend,
    /// Virtual cable unplug
    VirtualCableUnplug,
}

impl HidControlOp {
    /// The numeric code of this value on the wire.
    pub open spec fn code(self) -> u8 {
        match self {
            HidControlOp::Nop => 0x0,
            HidControlOp::HardReset => 0x1,
            HidControlOp::SoftReset => 0x2,
            HidControlOp::Suspend => 0x3,
            HidControlOp::ExitSuspend => 0x4,
            HidControlOp::VirtualCableUnplug => 0x5,
        }
    }

    /// The numeric code of this value on the wire.
    pub fn to_u8(&self) -> (r: u8)
        ensures
            r == self.code(),
    {
        match self {
            HidControlOp::Nop => 0x0,
            HidControlOp::HardReset => 0x1,
            HidControlOp::SoftReset => 0x2,
            HidControlOp::Suspend => 0x3,
            HidControlOp::ExitSuspend => 0x4,
            HidControlOp::VirtualCableUnplug => 0x5,
        }
    }

    /// The value whose code is `v`, if any.
    pub open spec fn decode(v: u8) -> Option<HidControlOp> {
        if v == 0x0 { Some(HidControlOp::Nop) } else { if v == 0x1 { Some(HidControlOp::HardReset) } else { if v == 0x2 { Some(HidControlOp::SoftReset) } else { if v == 0x3 { Some(HidControlOp::Suspend) } else { if v == 0x4 { Some(HidControlOp::ExitSuspend) } else { if v == 0x5 { Some(HidControlOp::VirtualCableUnplug) } else { None } } } } } }
    }

    /// The value whose code is `v`, if any.
    pub fn from_u8(v: u8) -> (r: Option<HidControlOp>)
        ensures
            r == HidControlOp::decode(v),
    {
        match v {
            0x0 => Some(HidControlOp::Nop),
            0x1 => Some(HidControlOp::HardReset),
            0x2 => Some(HidControlOp::SoftReset),
            0x3 => Some(HidControlOp::Suspend),
            0x4 => Some(HidControlOp::ExitSuspend),
            0x5 => Some(HidControlOp::VirtualCableUnplug),
            _ => None,
        }
    }

    /// Decoding the code of a value gives the value back.
    pub proof fn lemma_code_roundtrip(self)
        ensures
            HidControlOp::decode(self.code()) == Some(self),
    {
    }

}

/// HID device subclass
#[derive(Clone, Copy, Debug, PartialEq, Eq, Structural)]
pub enum HidDeviceSubclass {
    /// No subclass
    NoSubclass,
    /// Boot interface subclass
    BootInterface,
}

impl HidDeviceSubclass {
    /// The numeric code of this value on the wire.
    pub open spec fn code(self) -> u8 {
        match self {
            HidDeviceSubclass::NoSubclass => 0x0,
            HidDeviceSubclass::BootInterface => 0x1,
        }
    }

    /// The numeric code of this value on the wire.
    pub fn to_u8(&self) -> (r: u8)
        ensures
            r == self.code(),
    {
        match self {
            HidDeviceSubclass::NoSubclass => 0x0,
            HidDeviceSubclass::BootInterface => 0x1,
        }
    }

}

/// HID device type
#[derive(Clone, Copy, Debug, PartialEq, Eq, Structural)]
pub enum HidDeviceType {
    /// Generic HID device
    Generic,
    /// Keyboard
    Keyboard,
    /// Mouse
    Mouse,
    /// Reserved (3-255)
    Reserved,
}

impl HidDeviceType {
    /// The numeric code of this value on the wire.
    pub open spec fn code(self) -> u8 {
        match self {
            HidDeviceType::Generic => 0x0,
            HidDeviceType::Keyboard => 0x1,
            HidDeviceType::Mouse => 0x2,
            HidDeviceType::Reserved => 0x3,
        }
    }

    /// The numeric code of this value on the wire.
    pub fn to_u8(&self) -> (r: u8)
        ensures
            r == self.code(),
    {
        match self {
            HidDeviceType::Generic => 0x0,
            HidDeviceType::Keyboard => 0x1,
            HidDeviceType::Mouse => 0x2,
            HidDeviceType::Reserved => 0x3,
        }
    }

}

/// HID usage pages
#[derive(Clone, Copy, Debug, PartialEq, Eq, Structural)]
pub enum HidUsagePage {
    /// Generic desktop controls
    GenericDesktop,
    /// Simulation controls
    Simulation,
    /// VR controls
    Vr,
    /// Sport controls
    Sport,
    /// Game controls
    Game,
    /// Generic device controls
    GenericDevice,
    /// Keyboard/Keypad
    Keyboard,
    /// LEDs
    Led,
    /// Button
    Button,
    /// Ordinal
    Ordinal,
    /// Telephony
    Telephony,
    /// Consumer
    Consumer,
    /// Digitizer
    Digitizer,
    /// Haptics
    Haptics,
    /// Physical input device
    Pid,
    /// Unicode
    Unicode,
    /// Eye and head tracker
    EyeHeadTracker,
    /// Auxiliary display
    AuxDisplay,
    /// Sensors
    Sensor,
    /// Medical instrument
    Medical,
    /// Braille display
    Braille,
    /// Lighting and illumination
    Lighting,
    /// Monitor
    Monitor,
    /// Monitor enumerated
    MonitorEnum,
    /// VESA virtual controls
    VesaVc,
    /// Power device
    Power,
    /// Battery system
    Battery,
    /// Bar code scanner
    BarCode,
    /// Weighing device
    Scale,
    /// Magnetic stripe reader
    Msr,
    /// Camera control
    Camera,
    /// Arcade
    Arcade,
    /// Gaming device
    Gaming,
    /// FIDO alliance
    Fido,
    /// Vendor defined start
    VendorMin,
    /// Vendor defined end
    VendorMax,
}

impl HidUsagePage {
    /// The numeric code of this value on the wire.
    pub open spec fn code(self) -> u16 {
        match self {
            HidUsagePage::GenericDesktop => 0x1,
            HidUsagePage::Simulation => 0x2,
            HidUsagePage::Vr => 0x3,
            HidUsagePage::Sport => 0x4,
            HidUsagePage::Game => 0x5,
            HidUsagePage::GenericDevice => 0x6,
            HidUsagePage::Keyboard => 0x7,
            HidUsagePage::Led => 0x8,
            HidUsagePage::Button => 0x9,
            HidUsagePage::Ordinal => 0xa,
            HidUsagePage::Telephony => 0xb,
            HidUsagePage::Consumer => 0xc,
            HidUsagePage::Digitizer => 0xd,
            HidUsagePage::Haptics => 0xe,
            HidUsagePage::Pid => 0xf,
            HidUsagePage::Unicode => 0x10,
            HidUsagePage::EyeHeadTracker => 0x12,
            HidUsagePage::AuxDisplay => 0x14,
            HidUsagePage::Sensor => 0x20,
            HidUsagePage::Medical => 0x40,
            HidUsagePage::Braille => 0x41,
            HidUsagePage::Lighting => 0x59,
            HidUsagePage::Monitor => 0x80,
            HidUsagePage::MonitorEnum => 0x81,
            HidUsagePage::VesaVc => 0x82,
            HidUsagePage::Power => 0x84,
            HidUsagePage::Battery => 0x85,
            HidUsagePage::BarCode => 0x8c,
            HidUsagePage::Scale => 0x8d,
            HidUsagePage::Msr => 0x8e,
            HidUsagePage::Camera => 0x90,
            HidUsagePage::Arcade => 0x91,
            HidUsagePage::Gaming => 0x92,
            HidUsagePage::Fido => 0xf1d0,
            HidUsagePage::VendorMin => 0xff00,
            HidUsagePage::VendorMax => 0xffff,
        }
    }

    /// The numeric code of this value on the wire.
    pub fn to_u16(&self) -> (r: u16)
        ensures
            r == self.code(),
    {
        match self {
            HidUsagePage::GenericDesktop => 0x1,
            HidUsagePage::Simulation => 0x2,
            HidUsagePage::Vr => 0x3,
            HidUsagePage::Sport => 0x4,
            HidUsagePage::Game => 0x5,
            HidUsagePage::GenericDevice => 0x6,
            HidUsagePage::Keyboard => 0x7,
            HidUsagePage::Led => 0x8,
            HidUsagePage::Button => 0x9,
            HidUsagePage::Ordinal => 0xa,
            HidUsagePage::Telephony => 0xb,
            HidUsagePage::Consumer => 0xc,
            HidUsagePage::Digitizer => 0xd,
            HidUsagePage::Haptics => 0xe,
            HidUsagePage::Pid => 0xf,
            HidUsagePage::Unicode => 0x10,
            HidUsagePage::EyeHeadTracker => 0x12,
            HidUsagePage::AuxDisplay => 0x14,
            HidUsagePage::Sensor => 0x20,
            HidUsagePage::Medical => 0x40,
            HidUsagePage::Braille => 0x41,
            HidUsagePage::Lighting => 0x59,
            HidUsagePage::Monitor => 0x80,
            HidUsagePage::MonitorEnum => 0x81,
            HidUsagePage::VesaVc => 0x82,
            HidUsagePage::Power => 0x84,
            HidUsagePage::Battery => 0x85,
            HidUsagePage::BarCode => 0x8c,
            HidUsagePage::Scale => 0x8d,
            HidUsagePage::Msr => 0x8e,
            HidUsagePage::Camera => 0x90,
            HidUsagePage::Arcade => 0x91,
            HidUsagePage::Gaming => 0x92,
            HidUsagePage::Fido => 0xf1d0,
            HidUsagePage::VendorMin => 0xff00,
            HidUsagePage::VendorMax => 0xffff,
        }
    }

}

/// Generic desktop page usages
#[derive(Clone, Copy, Debug, PartialEq, Eq, Structural)]
pub enum GenericDesktopUsage {
    /// Pointer
    Pointer,
    /// Mouse
    Mouse,
    /// Reserved
    Reserved,
    /// Joystick
    Joystick,
    /// Gamepad
    Gamepad,
    /// Keyboard
    Keyboard,
    /// Keypad
    Keypad,
    /// Multi-axis controller
    MultiAxis,
    /// Tablet PC system controls
    TabletPc,
    /// Water cooling device
    WaterCooling,
    /// Computer chassis device
    ChassisDev,
    /// Wireless radio controls
    WirelessRadio,
    /// Portable device control
    PortableDevice,
    /// System multi-axis controller
    SystemMultiAxis,
    /// Spatial controller
    Spatial,
    /// X axis
    X,
    /// Y axis
    Y,
    /// Z axis
    Z,
    /// Rx axis (rotation)
    Rx,
    /// Ry axis (rotation)
    Ry,
    /// Rz axis (rotation)
    Rz,
    /// Slider
    Slider,
    /// Dial
    Dial,
    /// Wheel
    Wheel,
    /// Hat switch
    HatSwitch,
    /// Counted buffer
    CountedBuffer,
    /// Byte count
    ByteCount,
    /// Motion wakeup
    MotionWakeup,
    /// Start
    Start,
    /// Select
    Select,
}

impl GenericDesktopUsage {
    /// The numeric code of this value on the wire.
    pub open spec fn code(self) -> u16 {
        match self {
            GenericDesktopUsage::Pointer => 0x1,
            GenericDesktopUsage::Mouse => 0x2,
            GenericDesktopUsage::Reserved => 0x3,
            GenericDesktopUsage::Joystick => 0x4,
            GenericDesktopUsage::Gamepad => 0x5,
            GenericDesktopUsage::Keyboard => 0x6,
            GenericDesktopUsage::Keypad => 0x7,
            GenericDesktopUsage::MultiAxis => 0x8,
            GenericDesktopUsage::TabletPc => 0x9,
            GenericDesktopUsage::WaterCooling => 0xa,
            GenericDesktopUsage::ChassisDev => 0xb,
            GenericDesktopUsage::WirelessRadio => 0xc,
            GenericDesktopUsage::PortableDevice => 0xd,
            GenericDesktopUsage::SystemMultiAxis => 0xe,
            GenericDesktopUsage::Spatial => 0xf,
            GenericDesktopUsage::X => 0x30,
            GenericDesktopUsage::Y => 0x31,
            GenericDesktopUsage::Z => 0x32,
            GenericDesktopUsage::Rx => 0x33,
            GenericDesktopUsage::Ry => 0x34,
            GenericDesktopUsage::Rz => 0x35,
            GenericDesktopUsage::Slider => 0x36,
            GenericDesktopUsage::Dial => 0x37,
            GenericDesktopUsage::Wheel => 0x38,
            GenericDesktopUsage::HatSwitch => 0x39,
            GenericDesktopUsage::CountedBuffer => 0x3a,
            GenericDesktopUsage::ByteCount => 0x3b,
            GenericDesktopUsage::MotionWakeup => 0x3c,
            GenericDesktopUsage::Start => 0x3d,
            GenericDesktopUsage::Select => 0x3e,
        }
    }

    /// The numeric code of this value on the wire.
    pub fn to_u16(&self) -> (r: u16)
        ensures
            r == self.code(),
    {
        match self {
            GenericDesktopUsage::Pointer => 0x1,
            GenericDesktopUsage::Mouse => 0x2,
            GenericDesktopUsage::Reserved => 0x3,
            GenericDesktopUsage::Joystick => 0x4,
            GenericDesktopUsage::Gamepad => 0x5,
            GenericDesktopUsage::Keyboard => 0x6,
            GenericDesktopUsage::Keypad => 0x7,
            GenericDesktopUsage::MultiAxis => 0x8,
            GenericDesktopUsage::TabletPc => 0x9,
            GenericDesktopUsage::WaterCooling => 0xa,
            GenericDesktopUsage::ChassisDev => 0xb,
            GenericDesktopUsage::WirelessRadio => 0xc,
            GenericDesktopUsage::PortableDevice => 0xd,
            GenericDesktopUsage::SystemMultiAxis => 0xe,
            GenericDesktopUsage::Spatial => 0xf,
            GenericDesktopUsage::X => 0x30,
            GenericDesktopUsage::Y => 0x31,
            GenericDesktopUsage::Z => 0x32,
            GenericDesktopUsage::Rx => 0x33,
            GenericDesktopUsage::Ry => 0x34,
            GenericDesktopUsage::Rz => 0x35,
            GenericDesktopUsage::Slider => 0x36,
            GenericDesktopUsage::Dial => 0x37,
            GenericDesktopUsage::Wheel => 0x38,
            GenericDesktopUsage::HatSwitch => 0x39,
            GenericDesktopUsage::CountedBuffer => 0x3a,
            GenericDesktopUsage::ByteCount => 0x3b,
            GenericDesktopUsage::MotionWakeup => 0x3c,
            GenericDesktopUsage::Start => 0x3d,
            GenericDesktopUsage::Select => 0x3e,
        }
    }

}

/// Report descriptor item types
#[derive(Clone, Copy, Debug, PartialEq, Eq, Structural)]
pub enum HidItemType {
    /// Main item
    Main,
    /// Global item
    Global,
    /// Local item
    Local,
    /// Reserved
    Reserved,
}

impl HidItemType {
    /// The numeric code of this value on the wire.
    pub open spec fn code(self) -> u8 {
        match self {
            HidItemType::Main => 0x0,
            HidItemType::Global => 0x1,
            HidItemType::Local => 0x2,
            HidItemType::Reserved => 0x3,
        }
    }

    /// The numeric code of this value on the wire.
    pub fn to_u8(&self) -> (r: u8)
        ensures
            r == self.code(),
    {
        match self {
            HidItemType::Main => 0x0,
            HidItemType::Global => 0x1,
            HidItemType::Local => 0x2,
            HidItemType::Reserved => 0x3,
        }
    }

}

/// Main item tags
#[derive(Clone, Copy, Debug, PartialEq, Eq, Structural)]
pub enum HidMainTag {
    /// Input item
    Input,
    /// Output item
    Output,
    /// Collection start
    Collection,
    /// Feature item
    Feature,
    /// End collection
    EndCollection,
}

impl HidMainTag {
    /// The numeric code of this value on the wire.
    pub open spec fn code(self) -> u8 {
        match self {
            HidMainTag::Input => 0x8,
            HidMainTag::Output => 0x9,
            HidMainTag::Collection => 0xa,
            HidMainTag::Feature => 0xb,
            HidMainTag::EndCollection => 0xc,
        }
    }

    /// The numeric code of this value on the wire.
    pub fn to_u8(&self) -> (r: u8)
        ensures
            r == self.code(),
    {
        match self {
            HidMainTag::Input => 0x8,
            HidMainTag::Output => 0x9,
            HidMainTag::Collection => 0xa,
            HidMainTag::Feature => 0xb,
            HidMainTag::EndCollection => 0xc,
        }
    }

    /// The value whose code is `v`, if any.
    pub open spec fn decode(v: u8) -> Option<HidMainTag> {
        if v == 0x8 { Some(HidMainTag::Input) } else { if v == 0x9 { Some(HidMainTag::Output) } else { if v == 0xa { Some(HidMainTag::Collection) } else { if v == 0xb { Some(HidMainTag::Feature) } else { if v == 0xc { Some(HidMainTag::EndCollection) } else { None } } } } }
    }

    /// The value whose code is `v`, if any.
    pub fn from_u8(v: u8) -> (r: Option<HidMainTag>)
        ensures
            r == HidMainTag::decode(v),
    {
        match v {
            0x8 => Some(HidMainTag::Input),
            0x9 => Some(HidMainTag::Output),
            0xa => Some(HidMainTag::Collection),
            0xb => Some(HidMainTag::Feature),
            0xc => Some(HidMainTag::EndCollection),
            _ => None,
        }
    }

    /// Decoding the code of a value gives the value back.
    pub proof fn lemma_code_roundtrip(self)
        ensures
            HidMainTag::decode(self.code()) == Some(self),
    {
    }

}

/// Global item tags
#[derive(Clone, Copy, Debug, PartialEq, Eq, Structural)]
pub enum HidGlobalTag {
    /// Usage page
    UsagePage,
    /// Logical minimum
    LogicalMinimum,
    /// Logical maximum
    LogicalMaximum,
    /// Physical minimum
    PhysicalMinimum,
    /// Physical maximum
    PhysicalMaximum,
    /// Unit exponent
    UnitExponent,
    /// Unit
    Unit,
    /// Report size (in bits)
    ReportSize,
    /// Report ID
    ReportId,
    /// Report count
    ReportCount,
    /// Push state
    Push,
    /// Pop state
    Pop,
}

impl HidGlobalTag {
    /// The numeric code of this value on the wire.
    pub open spec fn code(self) -> u8 {
        match self {
            HidGlobalTag::UsagePage => 0x0,
            HidGlobalTag::LogicalMinimum => 0x1,
            HidGlobalTag::LogicalMaximum => 0x2,
            HidGlobalTag::PhysicalMinimum => 0x3,
            HidGlobalTag::PhysicalMaximum => 0x4,
            HidGlobalTag::UnitExponent => 0x5,
            HidGlobalTag::Unit => 0x6,
            HidGlobalTag::ReportSize => 0x7,
            HidGlobalTag::ReportId => 0x8,
            HidGlobalTag::ReportCount => 0x9,
            HidGlobalTag::Push => 0xa,
            HidGlobalTag::Pop => 0xb,
        }
    }

    /// The numeric code of this value on the wire.
    pub fn to_u8(&self) -> (r: u8)
        ensures
            r == self.code(),
    {
        match self {
            HidGlobalTag::UsagePage => 0x0,
            HidGlobalTag::LogicalMinimum => 0x1,
            HidGlobalTag::LogicalMaximum => 0x2,
            HidGlobalTag::PhysicalMinimum => 0x3,
            HidGlobalTag::PhysicalMaximum => 0x4,
            HidGlobalTag::UnitExponent => 0x5,
            HidGlobalTag::Unit => 0x6,
            HidGlobalTag::ReportSize => 0x7,
            HidGlobalTag::ReportId => 0x8,
            HidGlobalTag::ReportCount => 0x9,
            HidGlobalTag::Push => 0xa,
            HidGlobalTag::Pop => 0xb,
        }
    }

    /// The value whose code is `v`, if any.
    pub open spec fn decode(v: u8) -> Option<HidGlobalTag> {
        if v == 0x0 { Some(HidGlobalTag::UsagePage) } else { if v == 0x1 { Some(HidGlobalTag::LogicalMinimum) } else { if v == 0x2 { Some(HidGlobalTag::LogicalMaximum) } else { if v == 0x3 { Some(HidGlobalTag::PhysicalMinimum) } else { if v == 0x4 { Some(HidGlobalTag::PhysicalMaximum) } else { if v == 0x5 { Some(HidGlobalTag::UnitExponent) } else { if v == 0x6 { Some(HidGlobalTag::Unit) } else { if v == 0x7 { Some(HidGlobalTag::ReportSize) } else { if v == 0x8 { Some(HidGlobalTag::ReportId) } else { if v == 0x9 { Some(HidGlobalTag::ReportCount) } else { if v == 0xa { Some(HidGlobalTag::Push) } else { if v == 0xb { Some(HidGlobalTag::Pop) } else { None } } } } } } } } } } } }
    }

    /// The value whose code is `v`, if any.
    pub fn from_u8(v: u8) -> (r: Option<HidGlobalTag>)
        ensures
            r == HidGlobalTag::decode(v),
    {
        match v {
            0x0 => Some(HidGlobalTag::UsagePage),
            0x1 => Some(HidGlobalTag::LogicalMinimum),
            0x2 => Some(HidGlobalTag::LogicalMaximum),
            0x3 => Some(HidGlobalTag::PhysicalMinimum),
            0x4 => Some(HidGlobalTag::PhysicalMaximum),
            0x5 => Some(HidGlobalTag::UnitExponent),
            0x6 => Some(HidGlobalTag::Unit),
            0x7 => Some(HidGlobalTag::ReportSize),
            0x8 => Some(HidGlobalTag::ReportId),
            0x9 => Some(HidGlobalTag::ReportCount),
            0xa => Some(HidGlobalTag::Push),
            0xb => Some(HidGlobalTag::Pop),
            _ => None,
        }
    }

    /// Decoding the code of a value gives the value back.
    pub proof fn lemma_code_roundtrip(self)
        ensures
            HidGlobalTag::decode(self.code()) == Some(self),
    {
    }

}

/// Local item tags
#[derive(Clone, Copy, Debug, PartialEq, Eq, Structural)]
pub enum HidLocalTag {
    /// Usage
    Usage,
    /// Usage minimum
    UsageMinimum,
    /// Usage maximum
    UsageMaximum,
    /// Designator index
    DesignatorIndex,
    /// Designator minimum
    DesignatorMinimum,
    /// Designator maximum
    DesignatorMaximum,
    /// String index
    StringIndex,
    /// String minimum
    StringMinimum,
    /// String maximum
    StringMaximum,
    /// Delimiter
    Delimiter,
}

impl HidLocalTag {
    /// The numeric code of this value on the wire.
    pub open spec fn code(self) -> u8 {
        match self {
            HidLocalTag::Usage => 0x0,
            HidLocalTag::UsageMinimum => 0x1,
            HidLocalTag::UsageMaximum => 0x2,
            HidLocalTag::DesignatorIndex => 0x3,
            HidLocalTag::DesignatorMinimum => 0x4,
            HidLocalTag::DesignatorMaximum => 0x5,
            HidLocalTag::StringIndex => 0x7,
            HidLocalTag::StringMinimum => 0x8,
            HidLocalTag::StringMaximum => 0x9,
            HidLocalTag::Delimiter => 0xa,
        }
    }

    /// The numeric code of this value on the wire.
    pub fn to_u8(&self) -> (r: u8)
        ensures
            r == self.code(),
    {
        match self {
            HidLocalTag::Usage => 0x0,
            HidLocalTag::UsageMinimum => 0x1,
            HidLocalTag::UsageMaximum => 0x2,
            HidLocalTag::DesignatorIndex => 0x3,
            HidLocalTag::DesignatorMinimum => 0x4,
            HidLocalTag::DesignatorMaximum => 0x5,
            HidLocalTag::StringIndex => 0x7,
            HidLocalTag::StringMinimum => 0x8,
            HidLocalTag::StringMaximum => 0x9,
            HidLocalTag::Delimiter => 0xa,
        }
    }

    /// The value whose code is `v`, if any.
    pub open spec fn decode(v: u8) -> Option<HidLocalTag> {
        if v == 0x0 { Some(HidLocalTag::Usage) } else { if v == 0x1 { Some(HidLocalTag::UsageMinimum) } else { if v == 0x2 { Some(HidLocalTag::UsageMaximum) } else { if v == 0x3 { Some(HidLocalTag::DesignatorIndex) } else { if v == 0x4 { Some(HidLocalTag::DesignatorMinimum) } else { if v == 0x5 { Some(HidLocalTag::DesignatorMaximum) } else { if v == 0x7 { Some(HidLocalTag::StringIndex) } else { if v == 0x8 { Some(HidLocalTag::StringMinimum) } else { if v == 0x9 { Some(HidLocalTag::StringMaximum) } else { if v == 0xa { Some(HidLocalTag::Delimiter) } else { None } } } } } } } } } }
    }

    /// The value whose code is `v`, if any.
    pub fn from_u8(v: u8) -> (r: Option<HidLocalTag>)
        ensures
            r == HidLocalTag::decode(v),
    {
        match v {
            0x0 => Some(HidLocalTag::Usage),
            0x1 => Some(HidLocalTag::UsageMinimum),
            0x2 => Some(HidLocalTag::UsageMaximum),
            0x3 => Some(HidLocalTag::DesignatorIndex),
            0x4 => Some(HidLocalTag::DesignatorMinimum),
            0x5 => Some(HidLocalTag::DesignatorMaximum),
            0x7 => Some(HidLocalTag::StringIndex),
            0x8 => Some(HidLocalTag::StringMinimum),
            0x9 => Some(HidLocalTag::StringMaximum),
            0xa => Some(HidLocalTag::Delimiter),
            _ => None,
        }
    }

    /// Decoding the code of a value gives the value back.
    pub proof fn lemma_code_roundtrip(self)
        ensures
            HidLocalTag::decode(self.code()) == Some(self),
    {
    }

}

/// Collection types
#[derive(Clone, Copy, Debug, PartialEq, Eq, Structural)]
pub enum HidCollectionType {
    /// Physical (group of axes)
    Physical,
    /// Application (mouse, keyboard)
    Application,
    /// Logical (interrelated data)
    Logical,
    /// Report
    Report,
    /// Named array
    NamedArray,
    /// Usage switch
    UsageSwitch,
    /// Usage modifier
    UsageModifier,
}

impl HidCollectionType {
    /// The numeric code of this value on the wire.
    pub open spec fn code(self) -> u8 {
        match self {
            HidCollectionType::Physical => 0x0,
            HidCollectionType::Application => 0x1,
            HidCollectionType::Logical => 0x2,
            HidCollectionType::Report => 0x3,
            HidCollectionType::NamedArray => 0x4,
            HidCollectionType::UsageSwitch => 0x5,
            HidCollectionType::UsageModifier => 0x6,
        }
    }

    /// The numeric code of this value on the wire.
    pub fn to_u8(&self) -> (r: u8)
        ensures
            r == self.code(),
    {
        match self {
            HidCollectionType::Physical => 0x0,
            HidCollectionType::Application => 0x1,
            HidCollectionType::Logical => 0x2,
            HidCollectionType::Report => 0x3,
            HidCollectionType::NamedArray => 0x4,
            HidCollectionType::UsageSwitch => 0x5,
            HidCollectionType::UsageModifier => 0x6,
        }
    }

    /// The value whose code is `v`, if any.
    pub open spec fn decode(v: u8) -> Option<HidCollectionType> {
        if v == 0x0 { Some(HidCollectionType::Physical) } else { if v == 0x1 { Some(HidCollectionType::Application) } else { if v == 0x2 { Some(HidCollectionType::Logical) } else { if v == 0x3 { Some(HidCollectionType::Report) } else { if v == 0x4 { Some(HidCollectionType::NamedArray) } else { if v == 0x5 { Some(HidCollectionType::UsageSwitch) } else { if v == 0x6 { Some(HidCollectionType::UsageModifier) } else { None } } } } } } }
    }

    /// The value whose code is `v`, if any.
    pub fn from_u8(v: u8) -> (r: Option<HidCollectionType>)
        ensures
            r == HidCollectionType::decode(v),
    {
        match v {
            0x0 => Some(HidCollectionType::Physical),
            0x1 => Some(HidCollectionType::Application),
            0x2 => Some(HidCollectionType::Logical),
            0x3 => Some(HidCollectionType::Report),
            0x4 => Some(HidCollectionType::NamedArray),
            0x5 => Some(HidCollectionType::UsageSwitch),
            0x6 => Some(HidCollectionType::UsageModifier),
            _ => None,
        }
    }

    /// Decoding the code of a value gives the value back.
    pub proof fn lemma_code_roundtrip(self)
        ensures
            HidCollectionType::decode(self.code()) == Some(self),
    {
    }

}

/// Keyboard modifier bits
#[derive(Debug, Clone, Copy, PartialEq, Eq, Structural)]
pub struct KeyboardModifiers(pub u8);

impl KeyboardModifiers {
    pub const LEFT_CTRL: u8 = 0x1;
    pub const LEFT_SHIFT: u8 = 0x2;
    pub const LEFT_ALT: u8 = 0x4;
    pub const LEFT_GUI: u8 = 0x8;
    pub const RIGHT_CTRL: u8 = 0x10;
    pub const RIGHT_SHIFT: u8 = 0x20;
    pub const RIGHT_ALT: u8 = 0x40;
    pub const RIGHT_GUI: u8 = 0x80;

    /// Nothing set
    pub fn new() -> (r: Self)
        ensures
            r.0 == 0,
    {
        KeyboardModifiers(0)
    }

    /// Whether left ctrl is set
    pub fn left_ctrl(&self) -> (r: bool)
        ensures
            r == (bit_set(self.0, 0)),
    {
        test_bit(self.0, 0)
    }

    /// Whether left shift is set
    pub fn left_shift(&self) -> (r: bool)
        ensures
            r == (bit_set(self.0, 1)),
    {
        test_bit(self.0, 1)
    }

    /// Whether left alt is set
    pub fn left_alt(&self) -> (r: bool)
        ensures
            r == (bit_set(self.0, 2)),
    {
        test_bit(self.0, 2)
    }

    /// Whether left gui is set
    pub fn left_gui(&self) -> (r: bool)
        ensures
            r == (bit_set(self.0, 3)),
    {
        test_bit(self.0, 3)
    }

    /// Whether right ctrl is set
    pub fn right_ctrl(&self) -> (r: bool)
        ensures
            r == (bit_set(self.0, 4)),
    {
        test_bit(self.0, 4)
    }

    /// Whether right shift is set
    pub fn right_shift(&self) -> (r: bool)
        ensures
            r == (bit_set(self.0, 5)),
    {
        test_bit(self.0, 5)
    }

    /// Whether right alt is set
    pub fn right_alt(&self) -> (r: bool)
        ensures
            r == (bit_set(self.0, 6)),
    {
        test_bit(self.0, 6)
    }

    /// Whether right gui is set
    pub fn right_gui(&self) -> (r: bool)
        ensures
            r == (bit_set(self.0, 7)),
    {
        test_bit(self.0, 7)
    }

    /// Whether any ctrl is set
    pub fn any_ctrl(&self) -> (r: bool)
        ensures
            r == (bit_set(self.0, 0) || bit_set(self.0, 4)),
    {
        test_bit(self.0, 0) || test_bit(self.0, 4)
    }

    /// Whether any shift is set
    pub fn any_shift(&self) -> (r: bool)
        ensures
            r == (bit_set(self.0, 1) || bit_set(self.0, 5)),
    {
        test_bit(self.0, 1) || test_bit(self.0, 5)
    }

    /// Whether any alt is set
    pub fn any_alt(&self) -> (r: bool)
        ensures
            r == (bit_set(self.0, 2) || bit_set(self.0, 6)),
    {
        test_bit(self.0, 2) || test_bit(self.0, 6)
    }

    /// Whether any gui is set
    pub fn any_gui(&self) -> (r: bool)
        ensures
            r == (bit_set(self.0, 3) || bit_set(self.0, 7)),
    {
        test_bit(self.0, 3) || test_bit(self.0, 7)
    }

}

/// Mouse button bits
#[derive(Debug, Clone, Copy, PartialEq, Eq, Structural)]
pub struct MouseButtons(pub u8);

impl MouseButtons {
    pub const LEFT: u8 = 0x1;
    pub const RIGHT: u8 = 0x2;
    pub const MIDDLE: u8 = 0x4;
    pub const BACK: u8 = 0x8;
    pub const FORWARD: u8 = 0x10;

    /// Nothing set
    pub fn new() -> (r: Self)
        ensures
            r.0 == 0,
    {
        MouseButtons(0)
    }

    /// Whether left is set
    pub fn left(&self) -> (r: bool)
        ensures
            r == (bit_set(self.0, 0)),
    {
        test_bit(self.0, 0)
    }

    /// Whether right is set
    pub fn right(&self) -> (r: bool)
        ensures
            r == (bit_set(self.0, 1)),
    {
        test_bit(self.0, 1)
    }

    /// Whether middle is set
    pub fn middle(&self) -> (r: bool)
        ensures
            r == (bit_set(self.0, 2)),
    {
        test_bit(self.0, 2)
    }

    /// Whether back is set
    pub fn back(&self) -> (r: bool)
        ensures
            r == (bit_set(self.0, 3)),
    {
        test_bit(self.0, 3)
    }

    /// Whether forward is set
    pub fn forward(&self) -> (r: bool)
        ensures
            r == (bit_set(self.0, 4)),
    {
        test_bit(self.0, 4)
    }

}

/// Keyboard LED bits
#[derive(Debug, Clone, Copy, PartialEq, Eq, Structural)]
pub struct KeyboardLeds(pub u8);

impl KeyboardLeds {
    pub const NUM_LOCK: u8 = 0x1;
    pub const CAPS_LOCK: u8 = 0x2;
    pub const SCROLL_LOCK: u8 = 0x4;
    pub const COMPOSE: u8 = 0x8;
    pub const KANA: u8 = 0x10;

    /// Nothing set
    pub fn new() -> (r: Self)
        ensures
            r.0 == 0,
    {
        KeyboardLeds(0)
    }

    /// Whether num lock is set
    pub fn num_lock(&self) -> (r: bool)
        ensures
            r == (bit_set(self.0, 0)),
    {
        test_bit(self.0, 0)
    }

    /// Whether caps lock is set
    pub fn caps_lock(&self) -> (r: bool)
        ensures
            r == (bit_set(self.0, 1)),
    {
        test_bit(self.0, 1)
    }

    /// Whether scroll lock is set
    pub fn scroll_lock(&self) -> (r: bool)
        ensures
            r == (bit_set(self.0, 2)),
    {
        test_bit(self.0, 2)
    }

    /// Whether compose is set
    pub fn compose(&self) -> (r: bool)
        ensures
            r == (bit_set(self.0, 3)),
    {
        test_bit(self.0, 3)
    }

    /// Whether kana is set
    pub fn kana(&self) -> (r: bool)
        ensures
            r == (bit_set(self.0, 4)),
    {
        test_bit(self.0, 4)
    }

}

/// Boot protocol keyboard input report
#[derive(Debug, Clone, Copy)]
pub struct BootKeyboardReport {
    pub modifiers: KeyboardModifiers,
    pub reserved: u8,
    pub keys: [u8; 6],
}

/// The eight bytes of a boot keyboard report.
pub open spec fn keyboard_bytes(r: BootKeyboardReport) -> Seq<u8> {
    seq![r.modifiers.0, r.reserved] + r.keys@
}

impl BootKeyboardReport {
    /// Empty report: no modifiers, no keys
    pub fn new() -> (r: Self)
        ensures
            r.modifiers.0 == 0 && r.reserved == 0,
            forall|i: int| 0 <= i < 6 ==> r.keys@[i] == 0,
    {
        BootKeyboardReport { modifiers: KeyboardModifiers(0), reserved: 0, keys: [0u8; 6] }
    }

    /// Parse the first eight bytes
    pub fn from_bytes(data: &[u8]) -> (r: Option<Self>)
        ensures
            r.is_some() <==> data@.len() >= 8,
            r matches Some(k) ==> keyboard_bytes(k) == data@.subrange(0, 8),
    {
        if data.len() < 8 {
            return None;
        }
        let r = BootKeyboardReport {
            modifiers: KeyboardModifiers(data[0]),
            reserved: data[1],
            keys: [data[2], data[3], data[4], data[5], data[6], data[7]],
        };
        assert(keyboard_bytes(r) =~= data@.subrange(0, 8));
        Some(r)
    }

    /// Serialize to eight bytes
    pub fn to_bytes(&self) -> (r: [u8; 8])
        ensures
            r@ == keyboard_bytes(*self),
    {
        let k = self.keys;
        let r = [self.modifiers.0, self.reserved, k[0], k[1], k[2], k[3], k[4], k[5]];
        assert(r@ =~= keyboard_bytes(*self));
        r
    }

    /// Whether a (non-zero) key code is among the pressed keys
    pub fn is_key_pressed(&self, keycode: u8) -> (r: bool)
        ensures
            r == (keycode != 0 && self.keys@.contains(keycode)),
    {
        let mut i: usize = 0;
        while i < 6
            invariant
                i <= 6,
                forall|j: int| 0 <= j < i ==> self.keys@[j] != keycode,
            decreases 6 - i,
        {
            if self.keys[i] == keycode {
                return keycode != 0;
            }
            i = i + 1;
        }
        false
    }

    /// The non-zero key codes, in report order
    pub fn pressed_keys(&self) -> (r: Vec<u8>)
        ensures
            r@ == self.keys@.filter(|k: u8| k != 0),
    {
        let mut out: Vec<u8> = Vec::new();
        let mut i: usize = 0;
        while i < 6
            invariant
                i <= 6,
                out@ == self.keys@.subrange(0, i as int).filter(|k: u8| k != 0),
            decreases 6 - i,
        {
            let ghost prev = self.keys@.subrange(0, i as int);
            assert(self.keys@.subrange(0, i + 1).drop_last() =~= prev);
            reveal_with_fuel(Seq::filter, 1);
            if self.keys[i] != 0 {
                out.push(self.keys[i]);
            }
            i = i + 1;
        }
        assert(self.keys@.subrange(0, 6) =~= self.keys@);
        out
    }
}

/// Parsing the bytes of a boot keyboard report gives it back.
pub proof fn lemma_keyboard_roundtrip(k: BootKeyboardReport)
    ensures
        keyboard_bytes(k).len() == 8,
        keyboard_bytes(k)[0] == k.modifiers.0,
        keyboard_bytes(k)[1] == k.reserved,
        keyboard_bytes(k).subrange(2, 8) == k.keys@,
{
    assert(keyboard_bytes(k).subrange(2, 8) =~= k.keys@);
}

/// Boot protocol mouse input report
#[derive(Debug, Clone, Copy)]
pub struct BootMouseReport {
    pub buttons: MouseButtons,
    pub x: i8,
    pub y: i8,
}

impl BootMouseReport {
    /// No buttons, no motion
    pub fn new() -> (r: Self)
        ensures
            r.buttons.0 == 0 && r.x == 0 && r.y == 0,
    {
        BootMouseReport { buttons: MouseButtons(0), x: 0, y: 0 }
    }

    /// Parse the first three bytes (motion as two's complement)
    pub fn from_bytes(data: &[u8]) -> (r: Option<Self>)
        ensures
            r.is_some() <==> data@.len() >= 3,
            r matches Some(m) ==> m.buttons.0 == data@[0] && m.x == data@[1] as i8 && m.y == data@[2] as i8,
    {
        if data.len() < 3 {
            return None;
        }
        Some(BootMouseReport { buttons: MouseButtons(data[0]), x: data[1] as i8, y: data[2] as i8 })
    }

    /// Serialize to three bytes
    pub fn to_bytes(&self) -> (r: [u8; 3])
        ensures
            r@ == seq![self.buttons.0, self.x as u8, self.y as u8],
    {
        let r = [self.buttons.0, self.x as u8, self.y as u8];
        assert(r@ =~= seq![self.buttons.0, self.x as u8, self.y as u8]);
        r
    }
}

/// A motion byte survives the trip through its unsigned form.
pub proof fn lemma_motion_byte_roundtrip(x: i8)
    ensures
        (x as u8) as i8 == x,
{
    assert((x as u8) as i8 == x) by (bit_vector);
}

/// Mouse report with wheels
#[derive(Debug, Clone, Copy)]
pub struct ExtendedMouseReport {
    pub buttons: MouseButtons,
    pub x: i8,
    pub y: i8,
    pub wheel: i8,
    pub hwheel: i8,
}

impl ExtendedMouseReport {
    /// No buttons, no motion
    pub fn new() -> (r: Self)
        ensures
            r.buttons.0 == 0 && r.x == 0 && r.y == 0 && r.wheel == 0 && r.hwheel == 0,
    {
        ExtendedMouseReport { buttons: MouseButtons(0), x: 0, y: 0, wheel: 0, hwheel: 0 }
    }

    /// Parse the first five bytes
    pub fn from_bytes(data: &[u8]) -> (r: Option<Self>)
        ensures
            r.is_some() <==> data@.len() >= 5,
            r matches Some(m) ==> m.buttons.0 == data@[0] && m.x == data@[1] as i8 && m.y == data@[2] as i8
                && m.wheel == data@[3] as i8 && m.hwheel == data@[4] as i8,
    {
        if data.len() < 5 {
            return None;
        }
        Some(ExtendedMouseReport {
            buttons: MouseButtons(data[0]),
            x: data[1] as i8,
            y: data[2] as i8,
            wheel: data[3] as i8,
            hwheel: data[4] as i8,
        })
    }

    /// Serialize to five bytes
    pub fn to_bytes(&self) -> (r: [u8; 5])
        ensures
            r@ == seq![self.buttons.0, self.x as u8, self.y as u8, self.wheel as u8, self.hwheel as u8],
    {
        let r = [self.buttons.0, self.x as u8, self.y as u8, self.wheel as u8, self.hwheel as u8];
        assert(r@ =~= seq![self.buttons.0, self.x as u8, self.y as u8, self.wheel as u8, self.hwheel as u8]);
        r
    }
}

/// Gamepad report
#[derive(Debug, Clone, Copy)]
pub struct GamepadReport {
    pub buttons: u16,
    pub left_x: i8,
    pub left_y: i8,
    pub right_x: i8,
    pub right_y: i8,
    pub left_trigger: u8,
    pub right_trigger: u8,
    pub dpad: u8,
}

impl GamepadReport {
    pub const BTN_A: u16 = 0x0001;
    pub const BTN_B: u16 = 0x0002;
    pub const BTN_X: u16 = 0x0004;
    pub const BTN_Y: u16 = 0x0008;
    pub const BTN_LB: u16 = 0x0010;
    pub const BTN_RB: u16 = 0x0020;
    pub const BTN_BACK: u16 = 0x0040;
    pub const BTN_START: u16 = 0x0080;
    pub const BTN_GUIDE: u16 = 0x0100;
    pub const BTN_LS: u16 = 0x0200;
    pub const BTN_RS: u16 = 0x0400;

    /// Centered sticks, nothing pressed
    pub fn new() -> (r: Self)
        ensures
            r.buttons == 0 && r.left_x == 0 && r.left_y == 0 && r.right_x == 0 && r.right_y == 0,
            r.left_trigger == 0 && r.right_trigger == 0 && r.dpad == 0,
    {
        GamepadReport { buttons: 0, left_x: 0, left_y: 0, right_x: 0, right_y: 0, left_trigger: 0, right_trigger: 0, dpad: 0 }
    }

    /// Whether any of the given button bits is pressed
    pub fn button_pressed(&self, button: u16) -> (r: bool)
        ensures
            r == (self.buttons & button != 0),
    {
        self.buttons & button != 0
    }
}

/// Report descriptor item
#[derive(Debug, Clone)]
pub struct HidItem {
    pub item_type: HidItemType,
    pub tag: u8,
    pub data: Vec<u8>,
}

/// The plain value of an item.
pub struct HidItemView {
    pub item_type: HidItemType,
    pub tag: u8,
    pub data: Seq<u8>,
}

impl View for HidItem {
    type V = HidItemView;

    open spec fn view(&self) -> HidItemView {
        HidItemView { item_type: self.item_type, tag: self.tag, data: self.data@ }
    }
}

/// The size code of an item with `n` data bytes (three stands for four bytes).
pub open spec fn size_code(n: nat) -> u8 {
    if n == 0 { 0 } else if n == 1 { 1 } else if n == 2 { 2 } else { 3 }
}

/// The number of data bytes a size code stands for.
pub open spec fn size_of_code(c: u8) -> nat {
    if c == 0 { 0 } else if c == 1 { 1 } else if c == 2 { 2 } else { 4 }
}

/// The prefix byte of an item: tag in bits 4..8, type in bits 2..4, size code in bits 0..2.
pub open spec fn item_prefix(t: HidItemType, tag: u8, n: nat) -> u8 {
    (tag << 4u8) | (t.code() << 2u8) | size_code(n)
}

/// The item type a two-bit code names.
pub open spec fn item_type_of(c: u8) -> HidItemType {
    if c == 0 { HidItemType::Main } else if c == 1 { HidItemType::Global }
    else if c == 2 { HidItemType::Local } else { HidItemType::Reserved }
}

/// The item at the front of `d`, with its encoded length, if it is whole.
pub open spec fn item_at(d: Seq<u8>) -> Option<(HidItemView, nat)> {
    if d.len() == 0 {
        None
    } else {
        let n = size_of_code(d[0] & 0x03);
        if d.len() < 1 + n {
            None
        } else {
            Some((HidItemView { item_type: item_type_of((d[0] >> 2u8) & 0x03), tag: (d[0] >> 4u8) & 0x0F,
                data: d.subrange(1, 1 + n as int) }, 1 + n))
        }
    }
}

/// The unsigned value of item data: little endian, at most four bytes.
pub open spec fn item_unsigned(d: Seq<u8>) -> u32 {
    if d.len() == 0 { 0 }
    else if d.len() == 1 { d[0] as u32 }
    else if d.len() == 2 { from_le16(d[0], d[1]) as u32 }
    else { from_le32(d[0], d[1], d[2], if d.len() > 3 { d[3] } else { 0 }) }
}

/// The signed value of item data: little endian two's complement, at most four bytes.
pub open spec fn item_signed(d: Seq<u8>) -> i32 {
    if d.len() == 0 { 0 }
    else if d.len() == 1 { (d[0] as i8) as i32 }
    else if d.len() == 2 { (from_le16(d[0], d[1]) as i16) as i32 }
    else { from_le32(d[0], d[1], d[2], if d.len() > 3 { d[3] } else { 0 }) as i32 }
}

impl HidItem {
    /// Create an item
    pub fn new(item_type: HidItemType, tag: u8, data: Vec<u8>) -> (r: Self)
        ensures
            r@ == (HidItemView { item_type, tag, data: data@ }),
    {
        HidItem { item_type, tag, data }
    }

    /// Encode: prefix byte then the data bytes
    pub fn encode(&self) -> (r: Vec<u8>)
        ensures
            r@ == seq![item_prefix(self.item_type, self.tag, self.data@.len())] + self.data@,
    {
        let mut result: Vec<u8> = Vec::new();
        let n = self.data.len();
        let size: u8 = if n == 0 { 0 } else if n == 1 { 1 } else if n == 2 { 2 } else { 3 };
        let header = (self.tag << 4) | (self.item_type.to_u8() << 2) | size;
        result.push(header);
        extend_bytes(&mut result, self.data.as_slice());
        assert(result@ =~= seq![item_prefix(self.item_type, self.tag, self.data@.len())] + self.data@);
        result
    }

    /// Decode the item at the front of `data`, with its length
    pub fn decode(data: &[u8]) -> (r: Option<(Self, usize)>)
        ensures
            r.is_some() <==> item_at(data@).is_some(),
            r matches Some((it, n)) ==> item_at(data@) == Some((it@, n as nat)),
    {
        if data.len() == 0 {
            return None;
        }
        let header = data[0];
        let size: usize = match header & 0x03 {
            0 => 0,
            1 => 1,
            2 => 2,
            _ => 4,
        };
        if data.len() < 1 + size {
            return None;
        }
        let item_type = match (header >> 2) & 0x03 {
            0 => HidItemType::Main,
            1 => HidItemType::Global,
            2 => HidItemType::Local,
            _ => HidItemType::Reserved,
        };
        let tag = (header >> 4) & 0x0F;
        let item_data = copy_range(data, 1, 1 + size);
        Some((HidItem::new(item_type, tag, item_data), 1 + size))
    }

    /// The data as a little-endian two's complement value
    pub fn as_signed(&self) -> (r: i32)
        ensures
            r == item_signed(self.data@),
    {
        let n = self.data.len();
        if n == 0 {
            0
        } else if n == 1 {
            (self.data[0] as i8) as i32
        } else if n == 2 {
            (make_u16(self.data[0], self.data[1]) as i16) as i32
        } else {
            let b3 = if n > 3 { self.data[3] } else { 0 };
            make_u32(self.data[0], self.data[1], self.data[2], b3) as i32
        }
    }

    /// The data as a little-endian unsigned value
    pub fn as_unsigned(&self) -> (r: u32)
        ensures
            r == item_unsigned(self.data@),
    {
        let n = self.data.len();
        if n == 0 {
            0
        } else if n == 1 {
            self.data[0] as u32
        } else if n == 2 {
            make_u16(self.data[0], self.data[1]) as u32
        } else {
            let b3 = if n > 3 { self.data[3] } else { 0 };
            make_u32(self.data[0], self.data[1], self.data[2], b3)
        }
    }
}

/// An item with a four-bit tag and 0, 1, 2 or 4 data bytes decodes back from
/// its encoding, whatever follows it.
pub proof fn lemma_item_roundtrip(t: HidItemType, tag: u8, data: Seq<u8>, rest: Seq<u8>)
    requires
        tag < 16,
        data.len() == 0 || data.len() == 1 || data.len() == 2 || data.len() == 4,
    ensures
        item_at(seq![item_prefix(t, tag, data.len())] + data + rest)
            == Some((HidItemView { item_type: t, tag, data }, 1 + data.len())),
{
    let b = seq![item_prefix(t, tag, data.len())] + data + rest;
    let c = t.code();
    let s = size_code(data.len());
    let h = item_prefix(t, tag, data.len());
    assert(h & 0x03 == s && (h >> 2u8) & 0x03 == c && (h >> 4u8) & 0x0F == tag) by (bit_vector)
        requires
            h == (tag << 4u8) | (c << 2u8) | s,
            tag < 16,
            c < 4,
            s < 4,
    ;
    assert(b[0] == h);
    assert(b.subrange(1, 1 + data.len() as int) =~= data);
}

/// Parser state (global and local items)
#[derive(Debug, Clone)]
pub struct HidParserState {
    pub usage_page: u16,
    pub logical_min: i32,
    pub logical_max: i32,
    pub physical_min: i32,
    pub physical_max: i32,
    pub report_size: u32,
    pub report_count: u32,
    pub report_id: u8,
    pub usages: Vec<u32>,
    pub usage_min: u32,
    pub usage_max: u32,
}

/// The plain value of a parser state.
pub struct HidParserStateView {
    pub usage_page: u16,
    pub logical_min: i32,
    pub logical_max: i32,
    pub physical_min: i32,
    pub physical_max: i32,
    pub report_size: u32,
    pub report_count: u32,
    pub report_id: u8,
    pub usages: Seq<u32>,
    pub usage_min: u32,
    pub usage_max: u32,
}

impl View for HidParserState {
    type V = HidParserStateView;

    open spec fn view(&self) -> HidParserStateView {
        HidParserStateView {
            usage_page: self.usage_page,
            logical_min: self.logical_min,
            logical_max: self.logical_max,
            physical_min: self.physical_min,
            physical_max: self.physical_max,
            report_size: self.report_size,
            report_count: self.report_count,
            report_id: self.report_id,
            usages: self.usages@,
            usage_min: self.usage_min,
            usage_max: self.usage_max,
        }
    }
}

/// The state before any item.
pub open spec fn initial_state() -> HidParserStateView {
    HidParserStateView {
        usage_page: 0,
        logical_min: 0,
        logical_max: 0,
        physical_min: 0,
        physical_max: 0,
        report_size: 0,
        report_count: 0,
        report_id: 0,
        usages: Seq::empty(),
        usage_min: 0,
        usage_max: 0,
    }
}

fn copy_u32s(v: &Vec<u32>) -> (r: Vec<u32>)
    ensures
        r@ == v@,
{
    let mut r: Vec<u32> = Vec::new();
    let mut i: usize = 0;
    while i < v.len()
        invariant
            i <= v@.len(),
            r@ == v@.subrange(0, i as int),
        decreases v@.len() - i,
    {
        r.push(v[i]);
        i = i + 1;
        assert(r@ =~= v@.subrange(0, i as int));
    }
    assert(v@.subrange(0, v@.len() as int) =~= v@);
    r
}

impl HidParserState {
    /// The state before any item
    pub fn new() -> (r: Self)
        ensures
            r@ == initial_state(),
    {
        HidParserState {
            usage_page: 0,
            logical_min: 0,
            logical_max: 0,
            physical_min: 0,
            physical_max: 0,
            report_size: 0,
            report_count: 0,
            report_id: 0,
            usages: Vec::new(),
            usage_min: 0,
            usage_max: 0,
        }
    }

    fn duplicate(&self) -> (r: Self)
        ensures
            r@ == self@,
    {
        HidParserState {
            usage_page: self.usage_page,
            logical_min: self.logical_min,
            logical_max: self.logical_max,
            physical_min: self.physical_min,
            physical_max: self.physical_max,
            report_size: self.report_size,
            report_count: self.report_count,
            report_id: self.report_id,
            usages: copy_u32s(&self.usages),
            usage_min: self.usage_min,
            usage_max: self.usage_max,
        }
    }
}

/// One field of a report
#[derive(Debug, Clone)]
pub struct HidField {
    pub report_id: u8,
    pub usage_page: u16,
    pub usages: Vec<u32>,
    pub logical_min: i32,
    pub logical_max: i32,
    pub physical_min: i32,
    pub physical_max: i32,
    pub size: u32,
    pub count: u32,
    pub flags: u32,
}

/// The plain value of a report field.
pub struct HidFieldView {
    pub report_id: u8,
    pub usage_page: u16,
    pub usages: Seq<u32>,
    pub logical_min: i32,
    pub logical_max: i32,
    pub physical_min: i32,
    pub physical_max: i32,
    pub size: u32,
    pub count: u32,
    pub flags: u32,
}

impl View for HidField {
    type V = HidFieldView;

    open spec fn view(&self) -> HidFieldView {
        HidFieldView {
            report_id: self.report_id,
            usage_page: self.usage_page,
            usages: self.usages@,
            logical_min: self.logical_min,
            logical_max: self.logical_max,
            physical_min: self.physical_min,
            physical_max: self.physical_max,
            size: self.size,
            count: self.count,
            flags: self.flags,
        }
    }
}

/// The usages `min..=max` (none when `min > max`).
pub open spec fn usage_range(min: u32, max: u32) -> Seq<u32> {
    if min <= max {
        Seq::new((max - min + 1) as nat, |k: int| (min + k) as u32)
    } else {
        Seq::empty()
    }
}

/// Everything the parser has gathered so far.
pub struct DescriptorParse {
    pub state: HidParserStateView,
    pub stack: Seq<HidParserStateView>,
    pub input: Seq<HidFieldView>,
    pub output: Seq<HidFieldView>,
    pub feature: Seq<HidFieldView>,
}

/// The field a main item creates from the current state.
pub open spec fn field_from(s: HidParserStateView, item: HidItemView) -> HidFieldView {
    HidFieldView {
        report_id: s.report_id,
        usage_page: s.usage_page,
        usages: if s.usages.len() == 0 { usage_range(s.usage_min, s.usage_max) } else { s.usages },
        logical_min: s.logical_min,
        logical_max: s.logical_max,
        physical_min: s.physical_min,
        physical_max: s.physical_max,
        size: s.report_size,
        count: s.report_count,
        flags: item_unsigned(item.data),
    }
}

/// The effect of one item on the parse.
pub open spec fn parse_step(p: DescriptorParse, item: HidItemView) -> DescriptorParse {
    let s = p.state;
    let u = item_unsigned(item.data);
    let v = item_signed(item.data);
    match item.item_type {
        HidItemType::Global => {
            if item.tag == 0x00 { DescriptorParse { state: HidParserStateView { usage_page: u as u16, ..s }, ..p } }
            else if item.tag == 0x01 { DescriptorParse { state: HidParserStateView { logical_min: v, ..s }, ..p } }
            else if item.tag == 0x02 { DescriptorParse { state: HidParserStateView { logical_max: v, ..s }, ..p } }
            else if item.tag == 0x03 { DescriptorParse { state: HidParserStateView { physical_min: v, ..s }, ..p } }
            else if item.tag == 0x04 { DescriptorParse { state: HidParserStateView { physical_max: v, ..s }, ..p } }
            else if item.tag == 0x07 { DescriptorParse { state: HidParserStateView { report_size: u, ..s }, ..p } }
            else if item.tag == 0x08 { DescriptorParse { state: HidParserStateView { report_id: u as u8, ..s }, ..p } }
            else if item.tag == 0x09 { DescriptorParse { state: HidParserStateView { report_count: u, ..s }, ..p } }
            else if item.tag == 0x0A { DescriptorParse { stack: p.stack.push(s), ..p } }
            else if item.tag == 0x0B {
                if p.stack.len() > 0 {
                    DescriptorParse { state: p.stack.last(), stack: p.stack.drop_last(), ..p }
                } else {
                    p
                }
            } else { p }
        },
        HidItemType::Local => {
            if item.tag == 0x00 { DescriptorParse { state: HidParserStateView { usages: s.usages.push(u), ..s }, ..p } }
            else if item.tag == 0x01 { DescriptorParse { state: HidParserStateView { usage_min: u, ..s }, ..p } }
            else if item.tag == 0x02 { DescriptorParse { state: HidParserStateView { usage_max: u, ..s }, ..p } }
            else { p }
        },
        HidItemType::Main => {
            let f = field_from(s, item);
            let cleared = HidParserStateView { usages: Seq::empty(), usage_min: 0, usage_max: 0, ..s };
            if item.tag == 0x08 { DescriptorParse { state: cleared, input: p.input.push(f), ..p } }
            else if item.tag == 0x09 { DescriptorParse { state: cleared, output: p.output.push(f), ..p } }
            else if item.tag == 0x0B { DescriptorParse { state: cleared, feature: p.feature.push(f), ..p } }
            else { DescriptorParse { state: cleared, ..p } }
        },
        HidItemType::Reserved => p,
    }
}

/// The parse after all of `items`.
pub open spec fn parse_items(p: DescriptorParse, items: Seq<HidItemView>) -> DescriptorParse
    decreases items.len(),
{
    if items.len() == 0 {
        p
    } else {
        parse_items(parse_step(p, items[0]), items.drop_first())
    }
}

/// The items of a raw descriptor, up to the first one that is cut short.
pub open spec fn decode_items(raw: Seq<u8>) -> Seq<HidItemView>
    decreases raw.len(),
{
    match item_at(raw) {
        Some((it, n)) => if 0 < n <= raw.len() {
            seq![it] + decode_items(raw.subrange(n as int, raw.len() as int))
        } else {
            Seq::empty()
        },
        None => Seq::empty(),
    }
}

/// The parse of a fresh descriptor.
pub open spec fn initial_parse() -> DescriptorParse {
    DescriptorParse { state: initial_state(), stack: Seq::empty(), input: Seq::empty(), output: Seq::empty(), feature: Seq::empty() }
}

/// Parsed report descriptor
#[derive(Debug, Clone)]
pub struct HidReportDescriptor {
    pub raw: Vec<u8>,
    pub items: Vec<HidItem>,
    pub input_fields: Vec<HidField>,
    pub output_fields: Vec<HidField>,
    pub feature_fields: Vec<HidField>,
}

/// The views of a list of items.
pub open spec fn items_view(v: Seq<HidItem>) -> Seq<HidItemView> {
    v.map_values(|i: HidItem| i@)
}

/// The views of a list of fields.
pub open spec fn fields_view(v: Seq<HidField>) -> Seq<HidFieldView> {
    v.map_values(|f: HidField| f@)
}

/// The views of a stack of states.
pub open spec fn states_view(v: Seq<HidParserState>) -> Seq<HidParserStateView> {
    v.map_values(|s: HidParserState| s@)
}

fn usage_list(min: u32, max: u32) -> (r: Vec<u32>)
    ensures
        r@ == usage_range(min, max),
{
    let mut r: Vec<u32> = Vec::new();
    if min > max {
        assert(r@ =~= usage_range(min, max));
        return r;
    }
    let mut u: u64 = min as u64;
    while u <= max as u64
        invariant
            min <= u <= max as u64 + 1,
            min <= max,
            r@ =~= Seq::new((u - min) as nat, |k: int| (min + k) as u32),
        decreases max as u64 + 1 - u,
    {
        r.push(u as u32);
        u = u + 1;
    }
    r
}

/// Apply one item to the parser state, stack and field lists.
fn apply_item(
    state: &mut HidParserState,
    stack: &mut Vec<HidParserState>,
    input: &mut Vec<HidField>,
    output: &mut Vec<HidField>,
    feature: &mut Vec<HidField>,
    item: &HidItem,
)
    ensures
        parse_step(
            DescriptorParse { state: old(state)@, stack: states_view(old(stack)@), input: fields_view(old(input)@),
                output: fields_view(old(output)@), feature: fields_view(old(feature)@) },
            item@,
        ) == (DescriptorParse { state: final(state)@, stack: states_view(final(stack)@), input: fields_view(final(input)@),
            output: fields_view(final(output)@), feature: fields_view(final(feature)@) }),
{
    match item.item_type {
        HidItemType::Global => {
            let t = item.tag;
            if t == 0x00 {
                state.usage_page = item.as_unsigned() as u16;
            } else if t == 0x01 {
                state.logical_min = item.as_signed();
            } else if t == 0x02 {
                state.logical_max = item.as_signed();
            } else if t == 0x03 {
                state.physical_min = item.as_signed();
            } else if t == 0x04 {
                state.physical_max = item.as_signed();
            } else if t == 0x07 {
                state.report_size = item.as_unsigned();
            } else if t == 0x08 {
                state.report_id = item.as_unsigned() as u8;
            } else if t == 0x09 {
                state.report_count = item.as_unsigned();
            } else if t == 0x0A {
                let copy = state.duplicate();
                stack.push(copy);
                assert(states_view(stack@) =~= states_view(old(stack)@).push(state@));
            } else if t == 0x0B {
                if stack.len() > 0 {
                    let s = stack.pop().unwrap();
                    assert(states_view(stack@) =~= states_view(old(stack)@).drop_last());
                    *state = s;
                }
            }
        },
        HidItemType::Local => {
            let t = item.tag;
            if t == 0x00 {
                let usage = item.as_unsigned();
                state.usages.push(usage);
            } else if t == 0x01 {
                state.usage_min = item.as_unsigned();
            } else if t == 0x02 {
                state.usage_max = item.as_unsigned();
            }
        },
        HidItemType::Main => {
            let flags = item.as_unsigned();
            let usages = if state.usages.len() == 0 {
                usage_list(state.usage_min, state.usage_max)
            } else {
                copy_u32s(&state.usages)
            };
            let field = HidField {
                report_id: state.report_id,
                usage_page: state.usage_page,
                usages,
                logical_min: state.logical_min,
                logical_max: state.logical_max,
                physical_min: state.physical_min,
                physical_max: state.physical_max,
                size: state.report_size,
                count: state.report_count,
                flags,
            };
            let t = item.tag;
            if t == 0x08 {
                input.push(field);
                assert(fields_view(input@) =~= fields_view(old(input)@).push(field@));
            } else if t == 0x09 {
                output.push(field);
                assert(fields_view(output@) =~= fields_view(old(output)@).push(field@));
            } else if t == 0x0B {
                feature.push(field);
                assert(fields_view(feature@) =~= fields_view(old(feature)@).push(field@));
            }
            state.usages = Vec::new();
            state.usage_min = 0;
            state.usage_max = 0;
        },
        HidItemType::Reserved => {},
    }
}

impl HidReportDescriptor {
    /// Parse a raw report descriptor
    pub fn new(raw: Vec<u8>) -> (r: Self)
        ensures
            r.raw@ == raw@,
            items_view(r.items@) == decode_items(raw@),
            fields_view(r.input_fields@) == parse_items(initial_parse(), decode_items(raw@)).input,
            fields_view(r.output_fields@) == parse_items(initial_parse(), decode_items(raw@)).output,
            fields_view(r.feature_fields@) == parse_items(initial_parse(), decode_items(raw@)).feature,
    {
        let mut descriptor = HidReportDescriptor {
            raw,
            items: Vec::new(),
            input_fields: Vec::new(),
            output_fields: Vec::new(),
            feature_fields: Vec::new(),
        };
        descriptor.parse();
        descriptor
    }

    fn decode_all(raw: &Vec<u8>) -> (r: Vec<HidItem>)
        ensures
            items_view(r@) == decode_items(raw@),
    {
        let mut items: Vec<HidItem> = Vec::new();
        let mut offset: usize = 0;
        assert(raw@.subrange(0, raw@.len() as int) =~= raw@);
        assert(items_view(items@) + decode_items(raw@) =~= decode_items(raw@));
        while offset < raw.len()
            invariant
                offset <= raw@.len(),
                items_view(items@) + decode_items(raw@.subrange(offset as int, raw@.len() as int)) == decode_items(raw@),
            ensures
                items_view(items@) == decode_items(raw@),
            decreases raw@.len() - offset,
        {
            let ghost rest = raw@.subrange(offset as int, raw@.len() as int);
            let slice = copy_range(raw.as_slice(), offset, raw.len());
            assert(slice@ == rest);
            match HidItem::decode(slice.as_slice()) {
                Some((item, size)) => {
                    let ghost prev = items@;
                    items.push(item);
                    assert(items_view(items@) =~= items_view(prev) + seq![item@]);
                    assert(rest.subrange(size as int, rest.len() as int)
                        =~= raw@.subrange((offset + size) as int, raw@.len() as int));
                    assert(items_view(items@) + decode_items(raw@.subrange((offset + size) as int, raw@.len() as int))
                        =~= items_view(prev) + decode_items(rest));
                    offset = offset + size;
                },
                None => {
                    assert(items_view(items@) + Seq::<HidItemView>::empty() =~= items_view(items@));
                    break;
                },
            }
        }
        if offset >= raw.len() {
            assert(decode_items(raw@.subrange(offset as int, raw@.len() as int)) =~= Seq::<HidItemView>::empty());
            assert(items_view(items@) + Seq::<HidItemView>::empty() =~= items_view(items@));
        }
        items
    }

    fn parse(&mut self)
        requires
            old(self).items@.len() == 0,
            old(self).input_fields@.len() == 0,
            old(self).output_fields@.len() == 0,
            old(self).feature_fields@.len() == 0,
        ensures
            final(self).raw@ == old(self).raw@,
            items_view(final(self).items@) == decode_items(old(self).raw@),
            fields_view(final(self).input_fields@) == parse_items(initial_parse(), decode_items(old(self).raw@)).input,
            fields_view(final(self).output_fields@) == parse_items(initial_parse(), decode_items(old(self).raw@)).output,
            fields_view(final(self).feature_fields@) == parse_items(initial_parse(), decode_items(old(self).raw@)).feature,
    {
        let items = Self::decode_all(&self.raw);
        let ghost all = items_view(items@);
        let mut state = HidParserState::new();
        let mut state_stack: Vec<HidParserState> = Vec::new();
        let mut input: Vec<HidField> = Vec::new();
        let mut output: Vec<HidField> = Vec::new();
        let mut feature: Vec<HidField> = Vec::new();
        let mut i: usize = 0;
        assert(all.subrange(0, all.len() as int) =~= all);
        assert(states_view(state_stack@) =~= Seq::<HidParserStateView>::empty());
        assert(fields_view(input@) =~= Seq::<HidFieldView>::empty());
        assert(fields_view(output@) =~= Seq::<HidFieldView>::empty());
        assert(fields_view(feature@) =~= Seq::<HidFieldView>::empty());
        while i < items.len()
            invariant
                i <= items@.len(),
                all == items_view(items@),
                parse_items(
                    DescriptorParse { state: state@, stack: states_view(state_stack@), input: fields_view(input@),
                        output: fields_view(output@), feature: fields_view(feature@) },
                    all.subrange(i as int, all.len() as int),
                ) == parse_items(initial_parse(), all),
            decreases items@.len() - i,
        {
            let ghost before = DescriptorParse { state: state@, stack: states_view(state_stack@), input: fields_view(input@),
                output: fields_view(output@), feature: fields_view(feature@) };
            apply_item(&mut state, &mut state_stack, &mut input, &mut output, &mut feature, &items[i]);
            assert(all.subrange(i as int, all.len() as int).drop_first() =~= all.subrange(i + 1, all.len() as int));
            assert(all.subrange(i as int, all.len() as int)[0] == items@[i as int]@);
            i = i + 1;
        }
        assert(all.subrange(i as int, all.len() as int) =~= Seq::<HidItemView>::empty());
        self.items = items;
        self.input_fields = input;
        self.output_fields = output;
        self.feature_fields = feature;
    }

    /// The standard boot keyboard descriptor
    pub fn boot_keyboard() -> (r: Self)
        ensures
            r.raw@ == boot_keyboard_descriptor(),
            items_view(r.items@) == decode_items(boot_keyboard_descriptor()),
            fields_view(r.input_fields@) == parse_items(initial_parse(), decode_items(boot_keyboard_descriptor())).input,
            fields_view(r.output_fields@) == parse_items(initial_parse(), decode_items(boot_keyboard_descriptor())).output,
            fields_view(r.feature_fields@) == parse_items(initial_parse(), decode_items(boot_keyboard_descriptor())).feature,
    {
        let raw: Vec<u8> = vec![
            0x05, 0x01, 0x09, 0x06, 0xA1, 0x01, 0x05, 0x07, 0x19, 0xE0, 0x29, 0xE7, 0x15, 0x00, 0x25, 0x01,
            0x75, 0x01, 0x95, 0x08, 0x81, 0x02, 0x95, 0x01, 0x75, 0x08, 0x81, 0x01, 0x95, 0x05, 0x75, 0x01,
            0x05, 0x08, 0x19, 0x01, 0x29, 0x05, 0x91, 0x02, 0x95, 0x01, 0x75, 0x03, 0x91, 0x01, 0x95, 0x06,
            0x75, 0x08, 0x15, 0x00, 0x26, 0xFF, 0x00, 0x05, 0x07, 0x19, 0x00, 0x29, 0xFF, 0x81, 0x00, 0xC0,
        ];
        assert(raw@ =~= boot_keyboard_descriptor());
        Self::new(raw)
    }

    /// The standard boot mouse descriptor
    pub fn boot_mouse() -> (r: Self)
        ensures
            r.raw@ == boot_mouse_descriptor(),
            items_view(r.items@) == decode_items(boot_mouse_descriptor()),
            fields_view(r.input_fields@) == parse_items(initial_parse(), decode_items(boot_mouse_descriptor())).input,
            fields_view(r.output_fields@) == parse_items(initial_parse(), decode_items(boot_mouse_descriptor())).output,
            fields_view(r.feature_fields@) == parse_items(initial_parse(), decode_items(boot_mouse_descriptor())).feature,
    {
        let raw: Vec<u8> = vec![
            0x05, 0x01, 0x09, 0x02, 0xA1, 0x01, 0x09, 0x01, 0xA1, 0x00, 0x05, 0x09, 0x19, 0x01, 0x29, 0x03,
            0x15, 0x00, 0x25, 0x01, 0x95, 0x03, 0x75, 0x01, 0x81, 0x02, 0x95, 0x01, 0x75, 0x05, 0x81, 0x01,
            0x05, 0x01, 0x09, 0x30, 0x09, 0x31, 0x15, 0x81, 0x25, 0x7F, 0x75, 0x08, 0x95, 0x02, 0x81, 0x06,
            0xC0, 0xC0,
        ];
        assert(raw@ =~= boot_mouse_descriptor());
        Self::new(raw)
    }
}

/// The boot keyboard report descriptor bytes.
pub open spec fn boot_keyboard_descriptor() -> Seq<u8> {
    seq![
        0x05u8, 0x01, 0x09, 0x06, 0xA1, 0x01, 0x05, 0x07, 0x19, 0xE0, 0x29, 0xE7, 0x15, 0x00, 0x25, 0x01,
        0x75, 0x01, 0x95, 0x08, 0x81, 0x02, 0x95, 0x01, 0x75, 0x08, 0x81, 0x01, 0x95, 0x05, 0x75, 0x01,
        0x05, 0x08, 0x19, 0x01, 0x29, 0x05, 0x91, 0x02, 0x95, 0x01, 0x75, 0x03, 0x91, 0x01, 0x95, 0x06,
        0x75, 0x08, 0x15, 0x00, 0x26, 0xFF, 0x00, 0x05, 0x07, 0x19, 0x00, 0x29, 0xFF, 0x81, 0x00, 0xC0,
    ]
}

/// The boot mouse report descriptor bytes.
pub open spec fn boot_mouse_descriptor() -> Seq<u8> {
    seq![
        0x05u8, 0x01, 0x09, 0x02, 0xA1, 0x01, 0x09, 0x01, 0xA1, 0x00, 0x05, 0x09, 0x19, 0x01, 0x29, 0x03,
        0x15, 0x00, 0x25, 0x01, 0x95, 0x03, 0x75, 0x01, 0x81, 0x02, 0x95, 0x01, 0x75, 0x05, 0x81, 0x01,
        0x05, 0x01, 0x09, 0x30, 0x09, 0x31, 0x15, 0x81, 0x25, 0x7F, 0x75, 0x08, 0x95, 0x02, 0x81, 0x06,
        0xC0, 0xC0,
    ]
}

/// HID connection state
#[derive(Debug, Clone, Copy, PartialEq, Eq, Structural)]
pub enum HidState {
    Disconnected,
    ConnectingControl,
    ConnectingInterrupt,
    Connected,
    Suspended,
}

/// HID device information (SDP attributes)
#[derive(Debug, Clone)]
pub struct HidDeviceInfo {
    pub vendor_id: u16,
    pub product_id: u16,
    pub version: u16,
    pub country: u8,
    pub subclass: HidDeviceSubclass,
    pub device_type: HidDeviceType,
    pub name: String,
    pub descriptor: HidReportDescriptor,
}

impl HidDeviceInfo {
    /// Unknown generic device, version 1.0, empty descriptor
    pub fn new() -> (r: Self)
        ensures
            r.vendor_id == 0 && r.product_id == 0 && r.version == 0x0100 && r.country == 0,
            r.subclass == HidDeviceSubclass::NoSubclass,
            r.device_type == HidDeviceType::Generic,
            r.name@.len() == 0,
            r.descriptor.raw@.len() == 0,
            r.descriptor.items@.len() == 0,
            r.descriptor.input_fields@.len() == 0,
            r.descriptor.output_fields@.len() == 0,
            r.descriptor.feature_fields@.len() == 0,
    {
        let d = HidReportDescriptor::new(Vec::new());
        assert(decode_items(Seq::<u8>::empty()) =~= Seq::<HidItemView>::empty());
        assert(parse_items(initial_parse(), Seq::<HidItemView>::empty()) == initial_parse());
        assert(items_view(d.items@).len() == d.items@.len());
        assert(fields_view(d.input_fields@).len() == d.input_fields@.len());
        assert(fields_view(d.output_fields@).len() == d.output_fields@.len());
        assert(fields_view(d.feature_fields@).len() == d.feature_fields@.len());
        HidDeviceInfo {
            vendor_id: 0,
            product_id: 0,
            version: 0x0100,
            country: 0,
            subclass: HidDeviceSubclass::NoSubclass,
            device_type: HidDeviceType::Generic,
            name: String::new(),
            descriptor: d,
        }
    }
}

} // verus!
