//! RFCOMM (serial port emulation): frame format, frame check sequence and
//! modem status signals.
use vstd::prelude::*;
use crate::wire::extend_bytes;

pub mod session;

verus! {

pub const RFCOMM_DEFAULT_MTU: u16 = 127;
pub const RFCOMM_MAX_MTU: u16 = 32767;
pub const RFCOMM_MAX_CHANNELS: u8 = 30;
pub const RFCOMM_CTRL_DLCI: u8 = 0;

/// RFCOMM frame types (control field without the P/F bit)
#[derive(Clone, Copy, Debug, PartialEq, Eq, Structural)]
pub enum RfcommFrameType {
    /// Set Asynchronous Balanced Mode (connect)
    Sabm,
    /// Unnumbered Acknowledgement
    Ua,
    /// Disconnected Mode
    Dm,
    /// Disconnect
    Disc,
    /// Unnumbered Information with Header check
    Uih,
    /// Unnumbered Information with Header check (with credits)
    UihCredits,
}

impl RfcommFrameType {
    /// The numeric code of this value on the wire.
    pub open spec fn code(self) -> u8 {
        match self {
            RfcommFrameType::Sabm => 0x2f,
            RfcommFrameType::Ua => 0x63,
            RfcommFrameType::Dm => 0xf,
            RfcommFrameType::Disc => 0x43,
            RfcommFrameType::Uih => 0xef,
            RfcommFrameType::UihCredits => 0xff,
        }
    }

    /// The numeric code of this value on the wire.
    pub fn to_u8(&self) -> (r: u8)
        ensures
            r == self.code(),
    {
        match self {
            RfcommFrameType::Sabm => 0x2f,
            RfcommFrameType::Ua => 0x63,
            RfcommFrameType::Dm => 0xf,
            RfcommFrameType::Disc => 0x43,
            RfcommFrameType::Uih => 0xef,
            RfcommFrameType::UihCredits => 0xff,
        }
    }

}

/// Multiplexer control command types
#[derive(Clone, Copy, Debug, PartialEq, Eq, Structural)]
pub enum MccType {
    /// Parameter Negotiation
    Pn,
    /// Power Saving Control
    Psc,
    /// Close Down Multiplexer
    Cld,
    /// Test
    Test,
    /// Flow Control On All
    FcOn,
    /// Flow Control Off All
    FcOff,
    /// Modem Status Command
    Msc,
    /// Non-Supported Command Response
    Nsc,
    /// Remote Port Negotiation
    Rpn,
    /// Remote Line Status
    Rls,
    /// Service Negotiation
    Sn,
}

impl MccType {
    /// The numeric code of this value on the wire.
    pub open spec fn code(self) -> u8 {
        match self {
            MccType::Pn => 0x20,
            MccType::Psc => 0x10,
            MccType::Cld => 0x30,
            MccType::Test => 0x8,
            MccType::FcOn => 0x28,
            MccType::FcOff => 0x18,
            MccType::Msc => 0x38,
            MccType::Nsc => 0x4,
            MccType::Rpn => 0x24,
            MccType::Rls => 0x14,
            MccType::Sn => 0x34,
        }
    }

    /// The numeric code of this value on the wire.
    pub fn to_u8(&self) -> (r: u8)
        ensures
            r == self.code(),
    {
        match self {
            MccType::Pn => 0x20,
            MccType::Psc => 0x10,
            MccType::Cld => 0x30,
            MccType::Test => 0x8,
            MccType::FcOn => 0x28,
            MccType::FcOff => 0x18,
            MccType::Msc => 0x38,
            MccType::Nsc => 0x4,
            MccType::Rpn => 0x24,
            MccType::Rls => 0x14,
            MccType::Sn => 0x34,
        }
    }

}

/// The CRC-8 table (reflected polynomial 0xE0) of the RFCOMM frame check sequence.
pub open spec fn fcs_table() -> Seq<u8> {
    seq![0x00, 0x91, 0xE3, 0x72, 0x07, 0x96, 0xE4, 0x75, 0x0E, 0x9F, 0xED, 0x7C, 0x09, 0x98, 0xEA, 0x7B, 0x1C, 0x8D, 0xFF, 0x6E, 0x1B, 0x8A, 0xF8, 0x69, 0x12, 0x83, 0xF1, 0x60, 0x15, 0x84, 0xF6, 0x67, 0x38, 0xA9, 0xDB, 0x4A, 0x3F, 0xAE, 0xDC, 0x4D, 0x36, 0xA7, 0xD5, 0x44, 0x31, 0xA0, 0xD2, 0x43, 0x24, 0xB5, 0xC7, 0x56, 0x23, 0xB2, 0xC0, 0x51, 0x2A, 0xBB, 0xC9, 0x58, 0x2D, 0xBC, 0xCE, 0x5F, 0x70, 0xE1, 0x93, 0x02, 0x77, 0xE6, 0x94, 0x05, 0x7E, 0xEF, 0x9D, 0x0C, 0x79, 0xE8, 0x9A, 0x0B, 0x6C, 0xFD, 0x8F, 0x1E, 0x6B, 0xFA, 0x88, 0x19, 0x62, 0xF3, 0x81, 0x10, 0x65, 0xF4, 0x86, 0x17, 0x48, 0xD9, 0xAB, 0x3A, 0x4F, 0xDE, 0xAC, 0x3D, 0x46, 0xD7, 0xA5, 0x34, 0x41, 0xD0, 0xA2, 0x33, 0x54, 0xC5, 0xB7, 0x26, 0x53, 0xC2, 0xB0, 0x21, 0x5A, 0xCB, 0xB9, 0x28, 0x5D, 0xCC, 0xBE, 0x2F, 0xE0, 0x71, 0x03, 0x92, 0xE7, 0x76, 0x04, 0x95, 0xEE, 0x7F, 0x0D, 0x9C, 0xE9, 0x78, 0x0A, 0x9B, 0xFC, 0x6D, 0x1F, 0x8E, 0xFB, 0x6A, 0x18, 0x89, 0xF2, 0x63, 0x11, 0x80, 0xF5, 0x64, 0x16, 0x87, 0xD8, 0x49, 0x3B, 0xAA, 0xDF, 0x4E, 0x3C, 0xAD, 0xD6, 0x47, 0x35, 0xA4, 0xD1, 0x40, 0x32, 0xA3, 0xC4, 0x55, 0x27, 0xB6, 0xC3, 0x52, 0x20, 0xB1, 0xCA, 0x5B, 0x29, 0xB8, 0xCD, 0x5C, 0x2E, 0xBF, 0x90, 0x01, 0x73, 0xE2, 0x97, 0x06, 0x74, 0xE5, 0x9E, 0x0F, 0x7D, 0xEC, 0x99, 0x08, 0x7A, 0xEB, 0x8C, 0x1D, 0x6F, 0xFE, 0x8B, 0x1A, 0x68, 0xF9, 0x82, 0x13, 0x61, 0xF0, 0x85, 0x14, 0x66, 0xF7, 0xA8, 0x39, 0x4B, 0xDA, 0xAF, 0x3E, 0x4C, 0xDD, 0xA6, 0x37, 0x45, 0xD4, 0xA1, 0x30, 0x42, 0xD3, 0xB4, 0x25, 0x57, 0xC6, 0xB3, 0x22, 0x50, 0xC1, 0xBA, 0x2B, 0x59, 0xC8, 0xBD, 0x2C, 0x5E, 0xCF]
}

/// Table lookup for the frame check sequence.
fn fcs_table_entry(i: u8) -> (r: u8)
    ensures
        r == fcs_table()[i as int],
{
    let t: [u8; 256] = [0x00, 0x91, 0xE3, 0x72, 0x07, 0x96, 0xE4, 0x75, 0x0E, 0x9F, 0xED, 0x7C, 0x09, 0x98, 0xEA, 0x7B, 0x1C, 0x8D, 0xFF, 0x6E, 0x1B, 0x8A, 0xF8, 0x69, 0x12, 0x83, 0xF1, 0x60, 0x15, 0x84, 0xF6, 0x67, 0x38, 0xA9, 0xDB, 0x4A, 0x3F, 0xAE, 0xDC, 0x4D, 0x36, 0xA7, 0xD5, 0x44, 0x31, 0xA0, 0xD2, 0x43, 0x24, 0xB5, 0xC7, 0x56, 0x23, 0xB2, 0xC0, 0x51, 0x2A, 0xBB, 0xC9, 0x58, 0x2D, 0xBC, 0xCE, 0x5F, 0x70, 0xE1, 0x93, 0x02, 0x77, 0xE6, 0x94, 0x05, 0x7E, 0xEF, 0x9D, 0x0C, 0x79, 0xE8, 0x9A, 0x0B, 0x6C, 0xFD, 0x8F, 0x1E, 0x6B, 0xFA, 0x88, 0x19, 0x62, 0xF3, 0x81, 0x10, 0x65, 0xF4, 0x86, 0x17, 0x48, 0xD9, 0xAB, 0x3A, 0x4F, 0xDE, 0xAC, 0x3D, 0x46, 0xD7, 0xA5, 0x34, 0x41, 0xD0, 0xA2, 0x33, 0x54, 0xC5, 0xB7, 0x26, 0x53, 0xC2, 0xB0, 0x21, 0x5A, 0xCB, 0xB9, 0x28, 0x5D, 0xCC, 0xBE, 0x2F, 0xE0, 0x71, 0x03, 0x92, 0xE7, 0x76, 0x04, 0x95, 0xEE, 0x7F, 0x0D, 0x9C, 0xE9, 0x78, 0x0A, 0x9B, 0xFC, 0x6D, 0x1F, 0x8E, 0xFB, 0x6A, 0x18, 0x89, 0xF2, 0x63, 0x11, 0x80, 0xF5, 0x64, 0x16, 0x87, 0xD8, 0x49, 0x3B, 0xAA, 0xDF, 0x4E, 0x3C, 0xAD, 0xD6, 0x47, 0x35, 0xA4, 0xD1, 0x40, 0x32, 0xA3, 0xC4, 0x55, 0x27, 0xB6, 0xC3, 0x52, 0x20, 0xB1, 0xCA, 0x5B, 0x29, 0xB8, 0xCD, 0x5C, 0x2E, 0xBF, 0x90, 0x01, 0x73, 0xE2, 0x97, 0x06, 0x74, 0xE5, 0x9E, 0x0F, 0x7D, 0xEC, 0x99, 0x08, 0x7A, 0xEB, 0x8C, 0x1D, 0x6F, 0xFE, 0x8B, 0x1A, 0x68, 0xF9, 0x82, 0x13, 0x61, 0xF0, 0x85, 0x14, 0x66, 0xF7, 0xA8, 0x39, 0x4B, 0xDA, 0xAF, 0x3E, 0x4C, 0xDD, 0xA6, 0x37, 0x45, 0xD4, 0xA1, 0x30, 0x42, 0xD3, 0xB4, 0x25, 0x57, 0xC6, 0xB3, 0x22, 0x50, 0xC1, 0xBA, 0x2B, 0x59, 0xC8, 0xBD, 0x2C, 0x5E, 0xCF];
    assert(t@ =~= fcs_table());
    t[i as usize]
}

/// The CRC register after feeding `s`, starting from 0xFF.
pub open spec fn fcs_register(s: Seq<u8>) -> u8
    decreases s.len(),
{
    if s.len() == 0 {
        0xFF
    } else {
        fcs_table()[(fcs_register(s.drop_last()) ^ s.last()) as int]
    }
}

/// The frame check sequence of `s`.
pub open spec fn fcs_of(s: Seq<u8>) -> u8 {
    (0xFF - fcs_register(s)) as u8
}

impl RfcommFrameType {
    /// The frame type of a control byte, ignoring the P/F bit
    pub open spec fn of_control(byte: u8) -> Option<RfcommFrameType> {
        let b = byte & 0xEF;
        if b == 0x2F { Some(RfcommFrameType::Sabm) }
        else if b == 0x63 { Some(RfcommFrameType::Ua) }
        else if b == 0x0F { Some(RfcommFrameType::Dm) }
        else if b == 0x43 { Some(RfcommFrameType::Disc) }
        else if b == 0xEF { Some(RfcommFrameType::Uih) }
        else { None }
    }

    fn from_byte(byte: u8) -> (r: Option<Self>)
        ensures
            r == Self::of_control(byte),
    {
        match byte & 0xEF {
            0x2F => Some(RfcommFrameType::Sabm),
            0x63 => Some(RfcommFrameType::Ua),
            0x0F => Some(RfcommFrameType::Dm),
            0x43 => Some(RfcommFrameType::Disc),
            0xEF => Some(RfcommFrameType::Uih),
            _ => None,
        }
    }
}

impl MccType {
    /// The command type of a type byte, ignoring the C/R and EA bits
    pub open spec fn of_type_byte(byte: u8) -> Option<MccType> {
        let b = byte & 0xFC;
        if b == 0x20 { Some(MccType::Pn) }
        else if b == 0x10 { Some(MccType::Psc) }
        else if b == 0x30 { Some(MccType::Cld) }
        else if b == 0x08 { Some(MccType::Test) }
        else if b == 0x28 { Some(MccType::FcOn) }
        else if b == 0x18 { Some(MccType::FcOff) }
        else if b == 0x38 { Some(MccType::Msc) }
        else if b == 0x04 { Some(MccType::Nsc) }
        else if b == 0x24 { Some(MccType::Rpn) }
        else if b == 0x14 { Some(MccType::Rls) }
        else if b == 0x34 { Some(MccType::Sn) }
        else { None }
    }

    fn from_byte(byte: u8) -> (r: Option<Self>)
        ensures
            r == Self::of_type_byte(byte),
    {
        match byte & 0xFC {
            0x20 => Some(MccType::Pn),
            0x10 => Some(MccType::Psc),
            0x30 => Some(MccType::Cld),
            0x08 => Some(MccType::Test),
            0x28 => Some(MccType::FcOn),
            0x18 => Some(MccType::FcOff),
            0x38 => Some(MccType::Msc),
            0x04 => Some(MccType::Nsc),
            0x24 => Some(MccType::Rpn),
            0x14 => Some(MccType::Rls),
            0x34 => Some(MccType::Sn),
            _ => None,
        }
    }
}

/// Modem status signals
#[derive(Clone, Copy, Debug, Default, PartialEq, Eq, Structural)]
pub struct ModemSignals {
    /// Flow control
    pub fc: bool,
    /// Ready to communicate
    pub rtc: bool,
    /// Ready to receive
    pub rtr: bool,
    /// Incoming call
    pub ic: bool,
    /// Data valid
    pub dv: bool,
}

/// The modem status byte: EA bit 0 always set, FC bit 1, RTC bit 2, RTR bit 3,
/// IC bit 6, DV bit 7.
pub open spec fn modem_byte(s: ModemSignals) -> u8 {
    (1 + (if s.fc { 2int } else { 0 }) + (if s.rtc { 4int } else { 0 }) + (if s.rtr { 8int } else { 0 })
        + (if s.ic { 64int } else { 0 }) + (if s.dv { 128int } else { 0 })) as u8
}

impl ModemSignals {
    /// Decode the modem status byte
    pub fn from_byte(byte: u8) -> (r: Self)
        ensures
            r.fc == crate::wire::bit_set(byte, 1),
            r.rtc == crate::wire::bit_set(byte, 2),
            r.rtr == crate::wire::bit_set(byte, 3),
            r.ic == crate::wire::bit_set(byte, 6),
            r.dv == crate::wire::bit_set(byte, 7),
    {
        ModemSignals {
            fc: crate::wire::test_bit(byte, 1),
            rtc: crate::wire::test_bit(byte, 2),
            rtr: crate::wire::test_bit(byte, 3),
            ic: crate::wire::test_bit(byte, 6),
            dv: crate::wire::test_bit(byte, 7),
        }
    }

    /// Encode the modem status byte
    pub fn to_byte(&self) -> (r: u8)
        ensures
            r == modem_byte(*self),
    {
        let mut byte: u8 = 0x01;
        if self.fc {
            byte = byte + 0x02;
        }
        if self.rtc {
            byte = byte + 0x04;
        }
        if self.rtr {
            byte = byte + 0x08;
        }
        if self.ic {
            byte = byte + 0x40;
        }
        if self.dv {
            byte = byte + 0x80;
        }
        byte
    }

    /// Signals of a channel ready for data: RTC, RTR and DV set
    pub fn ready() -> (r: Self)
        ensures
            r == (ModemSignals { fc: false, rtc: true, rtr: true, ic: false, dv: true }),
    {
        ModemSignals { fc: false, rtc: true, rtr: true, ic: false, dv: true }
    }
}

/// Decoding the byte that encodes a set of signals gives the signals back.
pub proof fn lemma_modem_roundtrip(s: ModemSignals)
    ensures
        crate::wire::bit_set(modem_byte(s), 1) == s.fc,
        crate::wire::bit_set(modem_byte(s), 2) == s.rtc,
        crate::wire::bit_set(modem_byte(s), 3) == s.rtr,
        crate::wire::bit_set(modem_byte(s), 6) == s.ic,
        crate::wire::bit_set(modem_byte(s), 7) == s.dv,
{
    let b = modem_byte(s);
    let f: u8 = if s.fc { 1 } else { 0 };
    let c: u8 = if s.rtc { 1 } else { 0 };
    let r: u8 = if s.rtr { 1 } else { 0 };
    let i: u8 = if s.ic { 1 } else { 0 };
    let d: u8 = if s.dv { 1 } else { 0 };
    assert(b == 1 + 2 * f + 4 * c + 8 * r + 64 * i + 128 * d);
    assert(((b >> 1u8) & 1u8 == 1u8) == (f == 1) && ((b >> 2u8) & 1u8 == 1u8) == (c == 1)
        && ((b >> 3u8) & 1u8 == 1u8) == (r == 1) && ((b >> 6u8) & 1u8 == 1u8) == (i == 1)
        && ((b >> 7u8) & 1u8 == 1u8) == (d == 1)) by (bit_vector)
        requires
            f < 2 && c < 2 && r < 2 && i < 2 && d < 2,
            b == 1 + 2 * f + 4 * c + 8 * r + 64 * i + 128 * d,
    ;
}

/// RFCOMM frame
#[derive(Clone, Debug)]
pub struct RfcommFrame {
    pub address: u8,
    pub control: u8,
    pub length: u16,
    pub credits: Option<u8>,
    pub data: Vec<u8>,
    pub fcs: u8,
}

/// The address byte: EA bit set, C/R in bit 1, DLCI above (high bits of the
/// DLCI that do not fit are lost).
pub open spec fn frame_address(dlci: u8, cr: bool) -> u8 {
    (dlci << 2u8) | ((if cr { 1u8 } else { 0u8 }) << 1u8) | 1u8
}

/// The length field: one byte (EA set) below 128, two bytes otherwise.
pub open spec fn length_field(l: u16) -> Seq<u8> {
    if l < 128 {
        seq![((l as u8) << 1u8) | 1u8]
    } else {
        seq![(l as u8) << 1u8, (l >> 7u16) as u8]
    }
}

/// The wire form of a frame.
pub open spec fn frame_bytes(address: u8, control: u8, length: u16, credits: Option<u8>, data: Seq<u8>, fcs: u8) -> Seq<u8> {
    seq![address, control] + length_field(length) + (match credits {
        Some(c) => seq![c],
        None => Seq::<u8>::empty(),
    }) + data + seq![fcs]
}

/// The length announced by the frame at the front of `d`, and the size of its length field.
pub open spec fn parsed_length(d: Seq<u8>) -> (u16, int) {
    if d[2] & 1u8 != 0 {
        ((d[2] >> 1u8) as u16, 1)
    } else {
        ((((d[3] as u16) << 7u16) | ((d[2] >> 1u8) as u16)), 2)
    }
}

/// Whether `d` holds a whole frame (header, data, FCS).
pub open spec fn frame_fits(d: Seq<u8>) -> bool {
    &&& d.len() >= 4
    &&& (d[2] & 1u8 == 0 ==> d.len() >= 5)
    &&& d.len() >= 2 + parsed_length(d).1 + parsed_length(d).0 + 1
}

/// The data of the frame at the front of `d`.
pub open spec fn frame_data(d: Seq<u8>) -> Seq<u8> {
    let (l, s) = parsed_length(d);
    d.subrange(2 + s, 2 + s + l)
}

/// The FCS byte of the frame at the front of `d`.
pub open spec fn frame_fcs(d: Seq<u8>) -> u8 {
    let (l, s) = parsed_length(d);
    d[2 + s + l]
}

/// Compute the frame check sequence over address and control bytes
fn calc_fcs(data: &[u8]) -> (r: u8)
    ensures
        r == fcs_of(data@),
{
    let mut fcs: u8 = 0xFF;
    let mut i: usize = 0;
    while i < data.len()
        invariant
            i <= data@.len(),
            fcs == fcs_register(data@.subrange(0, i as int)),
        decreases data@.len() - i,
    {
        assert(data@.subrange(0, i + 1).drop_last() =~= data@.subrange(0, i as int));
        fcs = fcs_table_entry(fcs ^ data[i]);
        i = i + 1;
    }
    assert(data@.subrange(0, data@.len() as int) =~= data@);
    0xFF - fcs
}

impl RfcommFrame {
    /// Data link connection identifier
    pub fn dlci(&self) -> (r: u8)
        ensures
            r == self.address / 4,
    {
        let a = self.address;
        assert(a >> 2 == a / 4) by (bit_vector);
        a >> 2
    }

    /// Command/response bit
    pub fn cr(&self) -> (r: bool)
        ensures
            r == crate::wire::bit_set(self.address, 1),
    {
        crate::wire::test_bit(self.address, 1)
    }

    /// Poll/final bit
    pub fn pf(&self) -> (r: bool)
        ensures
            r == crate::wire::bit_set(self.control, 4),
    {
        crate::wire::test_bit(self.control, 4)
    }

    /// Frame type of the control field
    pub fn frame_type(&self) -> (r: Option<RfcommFrameType>)
        ensures
            r == RfcommFrameType::of_control(self.control),
    {
        RfcommFrameType::from_byte(self.control)
    }

    fn control_frame(dlci: u8, cr: bool, control: u8) -> (r: Self)
        ensures
            r.address == frame_address(dlci, cr),
            r.control == control,
            r.length == 0,
            r.credits.is_none(),
            r.data@.len() == 0,
            r.fcs == fcs_of(seq![frame_address(dlci, cr), control]),
    {
        let c: u8 = if cr { 1 } else { 0 };
        let address = (dlci << 2) | (c << 1) | 0x01;
        let hdr = [address, control];
        assert(hdr@ =~= seq![frame_address(dlci, cr), control]);
        RfcommFrame { address, control, length: 0, credits: None, data: Vec::new(), fcs: calc_fcs(&hdr) }
    }

    /// SABM (set asynchronous balanced mode) with the P bit set
    pub fn sabm(dlci: u8, initiator: bool) -> (r: Self)
        ensures
            r.address == frame_address(dlci, initiator),
            r.control == 0x3F,
            r.length == 0 && r.credits.is_none() && r.data@.len() == 0,
            r.fcs == fcs_of(seq![r.address, r.control]),
    {
        Self::control_frame(dlci, initiator, 0x3F)
    }

    /// UA (unnumbered acknowledgement) with the F bit set
    pub fn ua(dlci: u8, initiator: bool) -> (r: Self)
        ensures
            r.address == frame_address(dlci, !initiator),
            r.control == 0x73,
            r.length == 0 && r.credits.is_none() && r.data@.len() == 0,
            r.fcs == fcs_of(seq![r.address, r.control]),
    {
        Self::control_frame(dlci, !initiator, 0x73)
    }

    /// DM (disconnected mode) with the F bit set
    pub fn dm(dlci: u8, initiator: bool) -> (r: Self)
        ensures
            r.address == frame_address(dlci, !initiator),
            r.control == 0x1F,
            r.length == 0 && r.credits.is_none() && r.data@.len() == 0,
            r.fcs == fcs_of(seq![r.address, r.control]),
    {
        Self::control_frame(dlci, !initiator, 0x1F)
    }

    /// DISC (disconnect) with the P bit set
    pub fn disc(dlci: u8, initiator: bool) -> (r: Self)
        ensures
            r.address == frame_address(dlci, initiator),
            r.control == 0x53,
            r.length == 0 && r.credits.is_none() && r.data@.len() == 0,
            r.fcs == fcs_of(seq![r.address, r.control]),
    {
        Self::control_frame(dlci, initiator, 0x53)
    }

    /// UIH (unnumbered information with header check) carrying data
    pub fn uih(dlci: u8, initiator: bool, data: Vec<u8>, credits: Option<u8>) -> (r: Self)
        ensures
            r.address == frame_address(dlci, initiator),
            r.control == (if credits.is_some() { 0xFFu8 } else { 0xEFu8 }),
            r.length == (data@.len() % 65536) as u16,
            r.credits == credits,
            r.data@ == data@,
            r.fcs == fcs_of(seq![r.address, r.control]),
    {
        let c: u8 = if initiator { 1 } else { 0 };
        let address = (dlci << 2) | (c << 1) | 0x01;
        let control: u8 = if credits.is_some() { 0xFF } else { 0xEF };
        let n = data.len();
        let length = (n % 65536) as u16;
        let hdr = [address, control];
        assert(hdr@ =~= seq![address, control]);
        let fcs = calc_fcs(&hdr);
        RfcommFrame { address, control, length, credits, data, fcs }
    }

    /// Check the FCS over address and control
    pub fn verify_fcs(&self) -> (r: bool)
        ensures
            r == (self.fcs == fcs_of(seq![self.address, self.control])),
    {
        let hdr = [self.address, self.control];
        assert(hdr@ =~= seq![self.address, self.control]);
        let expected = calc_fcs(&hdr);
        expected == self.fcs
    }

    /// Parse a frame. The credit byte of a credit-carrying UIH frame is
    /// recognised by comparing the masked control byte with 0xFF, which no
    /// masked byte equals, so no frame parsed here carries credits.
    pub fn from_bytes(data: &[u8]) -> (r: Option<Self>)
        ensures
            r.is_some() <==> frame_fits(data@),
            r matches Some(f) ==> f.address == data@[0] && f.control == data@[1]
                && f.length == parsed_length(data@).0 && f.credits.is_none()
                && f.data@ == frame_data(data@) && f.fcs == frame_fcs(data@),
    {
        if data.len() < 4 {
            return None;
        }
        let address = data[0];
        let control = data[1];
        let b2 = data[2];
        let length: u16;
        let len_size: usize;
        if (b2 & 0x01) != 0 {
            length = (b2 >> 1) as u16;
            len_size = 1;
        } else {
            if data.len() < 5 {
                return None;
            }
            length = ((data[3] as u16) << 7) | ((b2 >> 1) as u16);
            len_size = 2;
        }
        let header_size = 2 + len_size;
        assert((control & 0xEF) != 0xFF) by (bit_vector);
        let credit_size: usize = 0;
        let credits: Option<u8> = if (control & 0xEF) == 0xFF {
            if data.len() < header_size + 1 {
                return None;
            }
            Some(data[header_size])
        } else {
            None
        };
        let data_start = header_size + credit_size;
        let data_end = data_start + length as usize;
        if data.len() < data_end + 1 {
            return None;
        }
        let frame_data = crate::wire::copy_range(data, data_start, data_end);
        let fcs = data[data_end];
        Some(RfcommFrame { address, control, length, credits, data: frame_data, fcs })
    }

    /// Serialize a frame
    pub fn to_bytes(&self) -> (r: Vec<u8>)
        ensures
            r@ == frame_bytes(self.address, self.control, self.length, self.credits, self.data@, self.fcs),
    {
        let mut bytes: Vec<u8> = Vec::new();
        bytes.push(self.address);
        bytes.push(self.control);
        let l = self.length;
        if l < 128 {
            bytes.push(((l as u8) << 1) | 0x01);
        } else {
            bytes.push((l as u8) << 1);
            bytes.push((l >> 7) as u8);
        }
        match self.credits {
            Some(c) => bytes.push(c),
            None => {},
        }
        extend_bytes(&mut bytes, self.data.as_slice());
        bytes.push(self.fcs);
        assert(bytes@ =~= frame_bytes(self.address, self.control, self.length, self.credits, self.data@, self.fcs));
        bytes
    }
}

/// A frame without credits whose length field matches its data (shorter
/// than 32 KiB) parses back from its serialized form.
pub proof fn lemma_frame_roundtrip(address: u8, control: u8, data: Seq<u8>, fcs: u8)
    requires
        data.len() < 32768,
    ensures
        frame_fits(frame_bytes(address, control, data.len() as u16, None, data, fcs)),
        parsed_length(frame_bytes(address, control, data.len() as u16, None, data, fcs)).0 == data.len(),
        frame_data(frame_bytes(address, control, data.len() as u16, None, data, fcs)) == data,
        frame_fcs(frame_bytes(address, control, data.len() as u16, None, data, fcs)) == fcs,
{
    let l = data.len() as u16;
    let b = frame_bytes(address, control, l, None, data, fcs);
    if l < 128 {
        assert(((((l as u8) << 1u8) | 1u8) & 1u8 != 0) && (((((l as u8) << 1u8) | 1u8) >> 1u8) as u16 == l))
            by (bit_vector)
            requires
                l < 128,
        ;
        assert(b[2] == ((l as u8) << 1u8) | 1u8);
        assert(b.subrange(3, 3 + l as int) =~= data);
        assert(b[3 + l as int] == fcs);
    } else {
        assert((((l as u8) << 1u8) & 1u8 == 0)
            && (((((l >> 7u16) as u8) as u16) << 7u16) | ((((l as u8) << 1u8) >> 1u8) as u16)) == l)
            by (bit_vector)
            requires
                128 <= l < 32768,
        ;
        assert(b[2] == (l as u8) << 1u8);
        assert(b[3] == (l >> 7u16) as u8);
        assert(b.subrange(4, 4 + l as int) =~= data);
        assert(b[4 + l as int] == fcs);
    }
}

/// RFCOMM channel state
#[derive(Clone, Copy, Debug, PartialEq, Eq, Structural)]
pub enum ChannelState {
    /// Closed
    Closed,
    /// Wait for SABM acknowledgement
    WaitSabm,
    /// Wait for UA
    WaitUa,
    /// Open
    Open,
    /// Wait for DISC acknowledgement
    WaitDisc,
}

} // verus!
