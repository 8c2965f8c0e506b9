//! Serial console and boot progress reports: what to write to the UART's
//! registers and which bytes to send; the caller performs the port I/O.
use vstd::prelude::*;

verus! {

/// Base I/O ports of the four standard serial ports.
pub const COM1_PORT: u16 = 0x3F8;
pub const COM2_PORT: u16 = 0x2F8;
pub const COM3_PORT: u16 = 0x3E8;
pub const COM4_PORT: u16 = 0x2E8;

/// Register offsets from the base port.
pub const SERIAL_DATA: u16 = 0;
pub const SERIAL_IER: u16 = 1;
pub const SERIAL_FCR: u16 = 2;
pub const SERIAL_LCR: u16 = 3;
pub const SERIAL_MCR: u16 = 4;
pub const SERIAL_LSR: u16 = 5;
pub const SERIAL_DLL: u16 = 0;
pub const SERIAL_DLH: u16 = 1;

/// A write of `value` to I/O port `port`.
#[derive(Debug, Clone, Copy, PartialEq, Eq, Structural)]
pub struct PortWrite {
    pub port: u16,
    pub value: u8,
}

/// The base port of serial port number `port` (COM1 for unknown numbers).
pub open spec fn port_base_for(port: u8) -> u16 {
    if port == 1 {
        COM2_PORT
    } else if port == 2 {
        COM3_PORT
    } else if port == 3 {
        COM4_PORT
    } else {
        COM1_PORT
    }
}

/// The register writes that program a UART at `base` for `baud_rate` (as a
/// divisor of 115200), 8N1, FIFOs on, interrupts on.
pub open spec fn init_writes(base: u16, baud_rate: u32) -> Seq<PortWrite> {
    let divisor = (115200u32 / baud_rate) as u16;
    seq![
        PortWrite { port: (base + SERIAL_IER) as u16, value: 0x00 },
        PortWrite { port: (base + SERIAL_LCR) as u16, value: 0x80 },
        PortWrite { port: (base + SERIAL_DLL) as u16, value: (divisor & 0xFF) as u8 },
        PortWrite { port: (base + SERIAL_DLH) as u16, value: ((divisor >> 8u16) & 0xFF) as u8 },
        PortWrite { port: (base + SERIAL_LCR) as u16, value: 0x03 },
        PortWrite { port: (base + SERIAL_FCR) as u16, value: 0xC7 },
        PortWrite { port: (base + SERIAL_MCR) as u16, value: 0x0B },
        PortWrite { port: (base + SERIAL_IER) as u16, value: 0x01 },
    ]
}

/// The bytes sent for text `s`: a carriage return before each line feed.
pub open spec fn serial_text(s: Seq<u8>) -> Seq<u8>
    decreases s.len(),
{
    if s.len() == 0 {
        Seq::empty()
    } else {
        serial_text(s.drop_last()) + if s.last() == 10 { seq![13u8, 10u8] } else { seq![s.last()] }
    }
}

/// Append the bytes sent for `s` to `out`.
fn push_serial_text(out: &mut Vec<u8>, s: &[u8])
    ensures
        final(out)@ == old(out)@ + serial_text(s@),
{
    let mut i: usize = 0;
    assert(s@.take(0) =~= Seq::<u8>::empty());
    assert(old(out)@ + serial_text(s@.take(0)) =~= old(out)@);
    while i < s.len()
        invariant
            i <= s@.len(),
            out@ == old(out)@ + serial_text(s@.take(i as int)),
        decreases s@.len() - i,
    {
        let b = s[i];
        assert(s@.take(i + 1).drop_last() =~= s@.take(i as int));
        if b == 10 {
            out.push(13);
        }
        out.push(b);
        proof {
            assert(out@ =~= old(out)@ + serial_text(s@.take(i + 1)));
        }
        i = i + 1;
    }
    assert(s@.take(i as int) =~= s@);
}

/// Serial console for debugging output
pub struct SerialConsole {
    port_base: u16,
    initialized: bool,
}

impl SerialConsole {
    /// The base I/O port.
    pub closed spec fn base(&self) -> u16 {
        self.port_base
    }

    /// Whether the port was programmed.
    pub closed spec fn is_initialized(&self) -> bool {
        self.initialized
    }

    /// The base port is one of the four standard ones.
    pub closed spec fn wf(&self) -> bool {
        self.port_base <= COM1_PORT
    }

    /// A console on COM1, not yet programmed.
    pub fn new() -> (r: Self)
        ensures
            r.base() == COM1_PORT,
            !r.is_initialized(),
            r.wf(),
    {
        Self { port_base: COM1_PORT, initialized: false }
    }

    /// Initialize serial port with specified baud rate: choose the port and
    /// give the register writes that program it.
    pub fn init(&mut self, port: u8, baud_rate: u32) -> (writes: Vec<PortWrite>)
        requires
            baud_rate > 0,
        ensures
            final(self).base() == port_base_for(port),
            final(self).is_initialized(),
            final(self).wf(),
            writes@ == init_writes(port_base_for(port), baud_rate),
    {
        self.port_base = match port {
            0 => COM1_PORT,
            1 => COM2_PORT,
            2 => COM3_PORT,
            3 => COM4_PORT,
            _ => COM1_PORT,
        };
        let divisor = (115200u32 / baud_rate) as u16;
        let base = self.port_base;
        let mut writes: Vec<PortWrite> = Vec::new();
        writes.push(PortWrite { port: base + SERIAL_IER, value: 0x00 });
        writes.push(PortWrite { port: base + SERIAL_LCR, value: 0x80 });
        writes.push(PortWrite { port: base + SERIAL_DLL, value: (divisor & 0xFF) as u8 });
        writes.push(PortWrite { port: base + SERIAL_DLH, value: ((divisor >> 8u16) & 0xFF) as u8 });
        writes.push(PortWrite { port: base + SERIAL_LCR, value: 0x03 });
        writes.push(PortWrite { port: base + SERIAL_FCR, value: 0xC7 });
        writes.push(PortWrite { port: base + SERIAL_MCR, value: 0x0B });
        writes.push(PortWrite { port: base + SERIAL_IER, value: 0x01 });
        self.initialized = true;
        assert(writes@ =~= init_writes(port_base_for(port), baud_rate));
        writes
    }

    /// Whether the port was programmed.
    pub fn is_initialized_exec(&self) -> (r: bool)
        ensures
            r == self.is_initialized(),
    {
        self.initialized
    }

    /// The line status register's port.
    pub fn status_port(&self) -> (r: u16)
        requires
            self.wf(),
        ensures
            r == self.base() + SERIAL_LSR,
    {
        self.port_base + SERIAL_LSR
    }

    /// The data register's port, where received bytes are read.
    pub fn data_port(&self) -> (r: u16)
        requires
            self.wf(),
        ensures
            r == self.base() + SERIAL_DATA,
    {
        self.port_base + SERIAL_DATA
    }

    /// Whether a line status value says the transmit buffer is empty.
    pub fn is_transmit_empty(lsr: u8) -> (r: bool)
        ensures
            r == (lsr & 0x20u8 != 0u8),
    {
        (lsr & 0x20) != 0
    }

    /// Write a byte to the serial port: the data register write, made once
    /// the transmit buffer is empty, or nothing on a port not programmed.
    pub fn write_byte(&self, b: u8) -> (r: Option<PortWrite>)
        requires
            self.wf(),
        ensures
            r == (if self.is_initialized() {
                Some(PortWrite { port: (self.base() + SERIAL_DATA) as u16, value: b })
            } else {
                None::<PortWrite>
            }),
    {
        if !self.initialized {
            return None;
        }
        Some(PortWrite { port: self.port_base + SERIAL_DATA, value: b })
    }

    /// Write a string to the serial port: the bytes to send, a carriage
    /// return before each line feed, or none on a port not programmed.
    pub fn write_str(&self, s: &str) -> (r: Vec<u8>)
        ensures
            r@ == (if self.is_initialized() { serial_text(vstd::utf8::encode_utf8(s@)) } else { Seq::empty() }),
    {
        let mut out: Vec<u8> = Vec::new();
        if self.initialized {
            push_serial_text(&mut out, s.as_bytes());
            assert(out@ =~= serial_text(vstd::utf8::encode_utf8(s@)));
        }
        out
    }

    /// Check if data is available to read, given the line status value.
    pub fn data_available(&self, lsr: u8) -> (r: bool)
        ensures
            r == (self.is_initialized() && lsr & 1u8 != 0u8),
    {
        if !self.initialized {
            return false;
        }
        (lsr & 1) != 0
    }
}

/// Boot stages for progress tracking
#[derive(Clone, Copy, Debug, PartialEq, Eq, Structural)]
pub enum BootStage {
    Init,
    LoadConfig,
    InitGraphics,
    CheckSecureBoot,
    FindAcpi,
    LoadKernel,
    LoadInitrd,
    AllocateMemory,
    BuildMemoryMap,
    ExitBootServices,
    JumpToKernel,
}

impl BootStage {
    /// The numeric code of this value on the wire.
    pub open spec fn code(self) -> u8 {
        match self {
            BootStage::Init => 0x0,
            BootStage::LoadConfig => 0x1,
            BootStage::InitGraphics => 0x2,
            BootStage::CheckSecureBoot => 0x3,
            BootStage::FindAcpi => 0x4,
            BootStage::LoadKernel => 0x5,
            BootStage::LoadInitrd => 0x6,
            BootStage::AllocateMemory => 0x7,
            BootStage::BuildMemoryMap => 0x8,
            BootStage::ExitBootServices => 0x9,
            BootStage::JumpToKernel => 0xa,
        }
    }

    /// The numeric code of this value on the wire.
    pub fn to_u8(&self) -> (r: u8)
        ensures
            r == self.code(),
    {
        match self {
            BootStage::Init => 0x0,
            BootStage::LoadConfig => 0x1,
            BootStage::InitGraphics => 0x2,
            BootStage::CheckSecureBoot => 0x3,
            BootStage::FindAcpi => 0x4,
            BootStage::LoadKernel => 0x5,
            BootStage::LoadInitrd => 0x6,
            BootStage::AllocateMemory => 0x7,
            BootStage::BuildMemoryMap => 0x8,
            BootStage::ExitBootServices => 0x9,
            BootStage::JumpToKernel => 0xa,
        }
    }

}

/// The message reported for a boot stage.
pub open spec fn stage_message(stage: BootStage) -> Seq<u8> {
    match stage {
        BootStage::Init => /* "Initializing bootloader\n" */ seq![73u8, 110u8, 105u8, 116u8, 105u8, 97u8, 108u8, 105u8, 122u8, 105u8, 110u8, 103u8, 32u8, 98u8, 111u8, 111u8, 116u8, 108u8, 111u8, 97u8, 100u8, 101u8, 114u8, 10u8],
        BootStage::LoadConfig => /* "Loading boot configuration\n" */ seq![76u8, 111u8, 97u8, 100u8, 105u8, 110u8, 103u8, 32u8, 98u8, 111u8, 111u8, 116u8, 32u8, 99u8, 111u8, 110u8, 102u8, 105u8, 103u8, 117u8, 114u8, 97u8, 116u8, 105u8, 111u8, 110u8, 10u8],
        BootStage::InitGraphics => /* "Initializing graphics\n" */ seq![73u8, 110u8, 105u8, 116u8, 105u8, 97u8, 108u8, 105u8, 122u8, 105u8, 110u8, 103u8, 32u8, 103u8, 114u8, 97u8, 112u8, 104u8, 105u8, 99u8, 115u8, 10u8],
        BootStage::CheckSecureBoot => /* "Checking Secure Boot status\n" */ seq![67u8, 104u8, 101u8, 99u8, 107u8, 105u8, 110u8, 103u8, 32u8, 83u8, 101u8, 99u8, 117u8, 114u8, 101u8, 32u8, 66u8, 111u8, 111u8, 116u8, 32u8, 115u8, 116u8, 97u8, 116u8, 117u8, 115u8, 10u8],
        BootStage::FindAcpi => /* "Locating ACPI tables\n" */ seq![76u8, 111u8, 99u8, 97u8, 116u8, 105u8, 110u8, 103u8, 32u8, 65u8, 67u8, 80u8, 73u8, 32u8, 116u8, 97u8, 98u8, 108u8, 101u8, 115u8, 10u8],
        BootStage::LoadKernel => /* "Loading kernel\n" */ seq![76u8, 111u8, 97u8, 100u8, 105u8, 110u8, 103u8, 32u8, 107u8, 101u8, 114u8, 110u8, 101u8, 108u8, 10u8],
        BootStage::LoadInitrd => /* "Loading initial ramdisk\n" */ seq![76u8, 111u8, 97u8, 100u8, 105u8, 110u8, 103u8, 32u8, 105u8, 110u8, 105u8, 116u8, 105u8, 97u8, 108u8, 32u8, 114u8, 97u8, 109u8, 100u8, 105u8, 115u8, 107u8, 10u8],
        BootStage::AllocateMemory => /* "Allocating kernel memory\n" */ seq![65u8, 108u8, 108u8, 111u8, 99u8, 97u8, 116u8, 105u8, 110u8, 103u8, 32u8, 107u8, 101u8, 114u8, 110u8, 101u8, 108u8, 32u8, 109u8, 101u8, 109u8, 111u8, 114u8, 121u8, 10u8],
        BootStage::BuildMemoryMap => /* "Building memory map\n" */ seq![66u8, 117u8, 105u8, 108u8, 100u8, 105u8, 110u8, 103u8, 32u8, 109u8, 101u8, 109u8, 111u8, 114u8, 121u8, 32u8, 109u8, 97u8, 112u8, 10u8],
        BootStage::ExitBootServices => /* "Exiting boot services\n" */ seq![69u8, 120u8, 105u8, 116u8, 105u8, 110u8, 103u8, 32u8, 98u8, 111u8, 111u8, 116u8, 32u8, 115u8, 101u8, 114u8, 118u8, 105u8, 99u8, 101u8, 115u8, 10u8],
        BootStage::JumpToKernel => /* "Jumping to kernel\n" */ seq![74u8, 117u8, 109u8, 112u8, 105u8, 110u8, 103u8, 32u8, 116u8, 111u8, 32u8, 107u8, 101u8, 114u8, 110u8, 101u8, 108u8, 10u8],
    }
}

fn stage_message_bytes(stage: BootStage) -> (r: Vec<u8>)
    ensures
        r@ == stage_message(stage),
{
    let m: &[u8] = match stage {
        BootStage::Init => /* "Initializing bootloader\n" */ [73u8, 110u8, 105u8, 116u8, 105u8, 97u8, 108u8, 105u8, 122u8, 105u8, 110u8, 103u8, 32u8, 98u8, 111u8, 111u8, 116u8, 108u8, 111u8, 97u8, 100u8, 101u8, 114u8, 10u8].as_slice(),
        BootStage::LoadConfig => /* "Loading boot configuration\n" */ [76u8, 111u8, 97u8, 100u8, 105u8, 110u8, 103u8, 32u8, 98u8, 111u8, 111u8, 116u8, 32u8, 99u8, 111u8, 110u8, 102u8, 105u8, 103u8, 117u8, 114u8, 97u8, 116u8, 105u8, 111u8, 110u8, 10u8].as_slice(),
        BootStage::InitGraphics => /* "Initializing graphics\n" */ [73u8, 110u8, 105u8, 116u8, 105u8, 97u8, 108u8, 105u8, 122u8, 105u8, 110u8, 103u8, 32u8, 103u8, 114u8, 97u8, 112u8, 104u8, 105u8, 99u8, 115u8, 10u8].as_slice(),
        BootStage::CheckSecureBoot => /* "Checking Secure Boot status\n" */ [67u8, 104u8, 101u8, 99u8, 107u8, 105u8, 110u8, 103u8, 32u8, 83u8, 101u8, 99u8, 117u8, 114u8, 101u8, 32u8, 66u8, 111u8, 111u8, 116u8, 32u8, 115u8, 116u8, 97u8, 116u8, 117u8, 115u8, 10u8].as_slice(),
        BootStage::FindAcpi => /* "Locating ACPI tables\n" */ [76u8, 111u8, 99u8, 97u8, 116u8, 105u8, 110u8, 103u8, 32u8, 65u8, 67u8, 80u8, 73u8, 32u8, 116u8, 97u8, 98u8, 108u8, 101u8, 115u8, 10u8].as_slice(),
        BootStage::LoadKernel => /* "Loading kernel\n" */ [76u8, 111u8, 97u8, 100u8, 105u8, 110u8, 103u8, 32u8, 107u8, 101u8, 114u8, 110u8, 101u8, 108u8, 10u8].as_slice(),
        BootStage::LoadInitrd => /* "Loading initial ramdisk\n" */ [76u8, 111u8, 97u8, 100u8, 105u8, 110u8, 103u8, 32u8, 105u8, 110u8, 105u8, 116u8, 105u8, 97u8, 108u8, 32u8, 114u8, 97u8, 109u8, 100u8, 105u8, 115u8, 107u8, 10u8].as_slice(),
        BootStage::AllocateMemory => /* "Allocating kernel memory\n" */ [65u8, 108u8, 108u8, 111u8, 99u8, 97u8, 116u8, 105u8, 110u8, 103u8, 32u8, 107u8, 101u8, 114u8, 110u8, 101u8, 108u8, 32u8, 109u8, 101u8, 109u8, 111u8, 114u8, 121u8, 10u8].as_slice(),
        BootStage::BuildMemoryMap => /* "Building memory map\n" */ [66u8, 117u8, 105u8, 108u8, 100u8, 105u8, 110u8, 103u8, 32u8, 109u8, 101u8, 109u8, 111u8, 114u8, 121u8, 32u8, 109u8, 97u8, 112u8, 10u8].as_slice(),
        BootStage::ExitBootServices => /* "Exiting boot services\n" */ [69u8, 120u8, 105u8, 116u8, 105u8, 110u8, 103u8, 32u8, 98u8, 111u8, 111u8, 116u8, 32u8, 115u8, 101u8, 114u8, 118u8, 105u8, 99u8, 101u8, 115u8, 10u8].as_slice(),
        BootStage::JumpToKernel => /* "Jumping to kernel\n" */ [74u8, 117u8, 109u8, 112u8, 105u8, 110u8, 103u8, 32u8, 116u8, 111u8, 32u8, 107u8, 101u8, 114u8, 110u8, 101u8, 108u8, 10u8].as_slice(),
    };
    vstd::slice::slice_to_vec(m)
}

/// The report of entering `stage`: `[STAGE `, the byte `'0' + code`, `] `
/// and the stage's message.
pub open spec fn stage_report(stage: BootStage) -> Seq<u8> {
    serial_text(/* "[STAGE " */ seq![91u8, 83u8, 84u8, 65u8, 71u8, 69u8, 32u8]) + seq![(48 + stage.code()) as u8] + serial_text(/* "] " */ seq![93u8, 32u8]) + serial_text(stage_message(stage))
}

/// Boot progress reporter
pub struct BootProgress {
    current_stage: BootStage,
    serial: Option<SerialConsole>,
}

impl BootProgress {
    /// The stage reached.
    pub closed spec fn stage(&self) -> BootStage {
        self.current_stage
    }

    /// Whether reports go to a programmed serial port.
    pub closed spec fn reports(&self) -> bool {
        self.serial matches Some(s) && s.is_initialized()
    }

    /// A reporter at the first stage, without serial output.
    pub fn new() -> (r: Self)
        ensures
            r.stage() == BootStage::Init,
            !r.reports(),
    {
        Self { current_stage: BootStage::Init, serial: None }
    }

    /// Report on serial port number `port` from now on; gives the register
    /// writes that program it.
    pub fn enable_serial(&mut self, port: u8, baud: u32) -> (writes: Vec<PortWrite>)
        requires
            baud > 0,
        ensures
            final(self).stage() == old(self).stage(),
            final(self).reports(),
            writes@ == init_writes(port_base_for(port), baud),
    {
        let mut serial = SerialConsole::new();
        let writes = serial.init(port, baud);
        self.serial = Some(serial);
        writes
    }

    /// Enter `stage`; gives the bytes of its report, if reports are on.
    pub fn set_stage(&mut self, stage: BootStage) -> (r: Vec<u8>)
        ensures
            final(self).stage() == stage,
            final(self).reports() == old(self).reports(),
            r@ == (if old(self).reports() { stage_report(stage) } else { Seq::empty() }),
    {
        self.current_stage = stage;
        let mut out: Vec<u8> = Vec::new();
        if self.reporting() {
            let head: [u8; 7] = [91, 83, 84, 65, 71, 69, 32];
            let tail: [u8; 2] = [93, 32];
            assert(head@ =~= /* "[STAGE " */ seq![91u8, 83u8, 84u8, 65u8, 71u8, 69u8, 32u8]);
            assert(tail@ =~= /* "] " */ seq![93u8, 32u8]);
            push_serial_text(&mut out, head.as_slice());
            out.push(48 + stage.to_u8());
            push_serial_text(&mut out, tail.as_slice());
            let msg = stage_message_bytes(stage);
            push_serial_text(&mut out, msg.as_slice());
            assert(out@ =~= stage_report(stage));
        }
        out
    }

    fn reporting(&self) -> (r: bool)
        ensures
            r == self.reports(),
    {
        match &self.serial {
            Some(serial) => serial.is_initialized_exec(),
            None => false,
        }
    }

    /// A log line: `[LOG] `, the message and a line end, if reports are on.
    pub fn log(&self, msg: &str) -> (r: Vec<u8>)
        ensures
            r@ == (if self.reports() {
                serial_text(/* "[LOG] " */ seq![91u8, 76u8, 79u8, 71u8, 93u8, 32u8] + vstd::utf8::encode_utf8(msg@) + /* "\n" */ seq![10u8])
            } else {
                Seq::empty()
            }),
    {
        let head: [u8; 6] = [91, 76, 79, 71, 93, 32];
        assert(head@ =~= /* "[LOG] " */ seq![91u8, 76u8, 79u8, 71u8, 93u8, 32u8]);
        self.line(head.as_slice(), msg)
    }

    /// An error line: `[ERROR] `, the message and a line end, if reports are on.
    pub fn error(&self, msg: &str) -> (r: Vec<u8>)
        ensures
            r@ == (if self.reports() {
                serial_text(/* "[ERROR] " */ seq![91u8, 69u8, 82u8, 82u8, 79u8, 82u8, 93u8, 32u8] + vstd::utf8::encode_utf8(msg@) + /* "\n" */ seq![10u8])
            } else {
                Seq::empty()
            }),
    {
        let head: [u8; 8] = [91, 69, 82, 82, 79, 82, 93, 32];
        assert(head@ =~= /* "[ERROR] " */ seq![91u8, 69u8, 82u8, 82u8, 79u8, 82u8, 93u8, 32u8]);
        self.line(head.as_slice(), msg)
    }

    fn line(&self, head: &[u8], msg: &str) -> (r: Vec<u8>)
        ensures
            r@ == (if self.reports() {
                serial_text(head@ + vstd::utf8::encode_utf8(msg@) + /* "\n" */ seq![10u8])
            } else {
                Seq::empty()
            }),
    {
        let mut text: Vec<u8> = vstd::slice::slice_to_vec(head);
        crate::wire::extend_bytes(&mut text, msg.as_bytes());
        text.push(10);
        assert(text@ =~= head@ + vstd::utf8::encode_utf8(msg@) + /* "\n" */ seq![10u8]);
        let mut out: Vec<u8> = Vec::new();
        if self.reporting() {
            push_serial_text(&mut out, text.as_slice());
            assert(out@ =~= serial_text(text@));
        }
        out
    }
}

} // verus!
