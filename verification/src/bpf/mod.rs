//! eBPF: instruction encoding, the interpreter and its error codes.
//!
//! The interpreter runs a program against a context of eleven registers, a
//! 512-byte stack, which the frame pointer R10 addresses from
//! `BPF_STACK_BASE`, and the memory the program is given (its context or
//! packet), which lies at `data_base`. Memory instructions read and write
//! those two; any other address is refused with `OutOfBounds`.
use vstd::prelude::*;

pub mod helpers;
pub mod regs;
pub mod maps;
pub mod programs;
pub mod prog_check;
pub mod jit;
pub mod syscall;

use helpers::{HelperState, helper_outcome, call_helper};
use crate::wire::{le_value, pow256n};

pub use maps::{BpfMap, BpfMapType, BpfMapDef};
pub use programs::{BpfProgram, BpfProgType, AttachType};
pub use prog_check::BpfVerifier;
pub use syscall::{BpfCmd, BpfRegistry, init, sys_bpf};

verus! {

/// Both register nibbles of an instruction name one of sixteen registers.
proof fn lemma_register_nibbles() by (bit_vector)
    ensures
        forall|x: u8| #[trigger] (x & 0x0F) < 16,
        forall|x: u8| #[trigger] ((x >> 4) & 0x0F) < 16,
{
}

/// BPF instruction (64-bit)
#[derive(Clone, Copy, Debug, PartialEq, Eq, Structural)]
pub struct BpfInsn {
    /// Operation code
    pub code: u8,
    /// Registers (dst:4, src:4)
    pub regs: u8,
    /// Signed offset
    pub off: i16,
    /// Immediate value
    pub imm: i32,
}

/// The instruction with these fields (the register nibbles are packed as
/// `src << 4 | dst & 0xF`; high bits of `src` are lost).
pub open spec fn insn(code: u8, dst: u8, src: u8, off: i16, imm: i32) -> BpfInsn {
    BpfInsn { code, regs: (src << 4u8) | (dst & 0x0Fu8), off, imm }
}

/// Destination register of an instruction.
pub open spec fn insn_dst(i: BpfInsn) -> u8 {
    i.regs & 0x0F
}

/// Source register of an instruction.
pub open spec fn insn_src(i: BpfInsn) -> u8 {
    (i.regs >> 4u8) & 0x0F
}

impl BpfInsn {
    /// Create new instruction
    pub fn new(code: u8, dst: u8, src: u8, off: i16, imm: i32) -> (r: Self)
        ensures
            r == insn(code, dst, src, off, imm),
    {
        BpfInsn { code, regs: (src << 4) | (dst & 0x0F), off, imm }
    }

    /// Get destination register
    pub fn dst(&self) -> (r: u8)
        ensures
            r == insn_dst(*self),
            r < 16,
    {
        proof {
            lemma_register_nibbles();
        }
        self.regs & 0x0F
    }

    /// Get source register
    pub fn src(&self) -> (r: u8)
        ensures
            r == insn_src(*self),
            r < 16,
    {
        proof {
            lemma_register_nibbles();
        }
        (self.regs >> 4) & 0x0F
    }

    /// Move immediate to register
    pub fn mov64_imm(dst: u8, imm: i32) -> (r: Self)
        ensures
            r == insn(0xB7, dst, 0, 0, imm),
    {
        Self::new(0xB7, dst, 0, 0, imm)
    }

    /// Move register to register
    pub fn mov64_reg(dst: u8, src: u8) -> (r: Self)
        ensures
            r == insn(0xBF, dst, src, 0, 0),
    {
        Self::new(0xBF, dst, src, 0, 0)
    }

    /// Add immediate
    pub fn add64_imm(dst: u8, imm: i32) -> (r: Self)
        ensures
            r == insn(0x07, dst, 0, 0, imm),
    {
        Self::new(0x07, dst, 0, 0, imm)
    }

    /// Add register
    pub fn add64_reg(dst: u8, src: u8) -> (r: Self)
        ensures
            r == insn(0x0F, dst, src, 0, 0),
    {
        Self::new(0x0F, dst, src, 0, 0)
    }

    /// Subtract immediate
    pub fn sub64_imm(dst: u8, imm: i32) -> (r: Self)
        ensures
            r == insn(0x17, dst, 0, 0, imm),
    {
        Self::new(0x17, dst, 0, 0, imm)
    }

    /// Load from memory
    pub fn ldx_mem(size: u8, dst: u8, src: u8, off: i16) -> (r: Self)
        ensures
            r == insn(0x61 | size, dst, src, off, 0),
    {
        Self::new(0x61 | size, dst, src, off, 0)
    }

    /// Store register to memory
    pub fn stx_mem(size: u8, dst: u8, src: u8, off: i16) -> (r: Self)
        ensures
            r == insn(0x63 | size, dst, src, off, 0),
    {
        Self::new(0x63 | size, dst, src, off, 0)
    }

    /// Store immediate to memory
    pub fn st_mem(size: u8, dst: u8, off: i16, imm: i32) -> (r: Self)
        ensures
            r == insn(0x62 | size, dst, 0, off, imm),
    {
        Self::new(0x62 | size, dst, 0, off, imm)
    }

    /// Jump if equal (immediate)
    pub fn jeq_imm(dst: u8, imm: i32, off: i16) -> (r: Self)
        ensures
            r == insn(0x15, dst, 0, off, imm),
    {
        Self::new(0x15, dst, 0, off, imm)
    }

    /// Jump if not equal (immediate)
    pub fn jne_imm(dst: u8, imm: i32, off: i16) -> (r: Self)
        ensures
            r == insn(0x55, dst, 0, off, imm),
    {
        Self::new(0x55, dst, 0, off, imm)
    }

    /// Jump if greater than (immediate)
    pub fn jgt_imm(dst: u8, imm: i32, off: i16) -> (r: Self)
        ensures
            r == insn(0x25, dst, 0, off, imm),
    {
        Self::new(0x25, dst, 0, off, imm)
    }

    /// Jump if greater or equal (immediate)
    pub fn jge_imm(dst: u8, imm: i32, off: i16) -> (r: Self)
        ensures
            r == insn(0x35, dst, 0, off, imm),
    {
        Self::new(0x35, dst, 0, off, imm)
    }

    /// Unconditional jump
    pub fn ja(off: i16) -> (r: Self)
        ensures
            r == insn(0x05, 0, 0, off, 0),
    {
        Self::new(0x05, 0, 0, off, 0)
    }

    /// Call helper function
    pub fn call(helper: i32) -> (r: Self)
        ensures
            r == insn(0x85, 0, 0, 0, helper),
    {
        Self::new(0x85, 0, 0, 0, helper)
    }

    /// Return
    pub fn exit() -> (r: Self)
        ensures
            r == insn(0x95, 0, 0, 0, 0),
    {
        Self::new(0x95, 0, 0, 0, 0)
    }
}

/// Registers of four bits survive packing into an instruction.
pub proof fn lemma_insn_registers(code: u8, dst: u8, src: u8, off: i16, imm: i32)
    requires
        dst < 16,
        src < 16,
    ensures
        insn_dst(insn(code, dst, src, off, imm)) == dst,
        insn_src(insn(code, dst, src, off, imm)) == src,
{
    let r = (src << 4u8) | (dst & 0x0Fu8);
    assert(r & 0x0F == dst && (r >> 4u8) & 0x0F == src) by (bit_vector)
        requires
            r == (src << 4u8) | (dst & 0x0Fu8),
            dst < 16,
            src < 16,
    ;
}

pub const BPF_LD: u8 = 0x00;
pub const BPF_LDX: u8 = 0x01;
pub const BPF_ST: u8 = 0x02;
pub const BPF_STX: u8 = 0x03;
pub const BPF_ALU: u8 = 0x04;
pub const BPF_JMP: u8 = 0x05;
pub const BPF_JMP32: u8 = 0x06;
pub const BPF_ALU64: u8 = 0x07;
pub const BPF_W: u8 = 0x00;
pub const BPF_H: u8 = 0x08;
pub const BPF_B: u8 = 0x10;
pub const BPF_DW: u8 = 0x18;
pub const BPF_IMM: u8 = 0x00;
pub const BPF_ABS: u8 = 0x20;
pub const BPF_IND: u8 = 0x40;
pub const BPF_MEM: u8 = 0x60;
pub const BPF_ATOMIC: u8 = 0xC0;
pub const BPF_K: u8 = 0x00;
pub const BPF_X: u8 = 0x08;
pub const BPF_ADD: u8 = 0x00;
pub const BPF_SUB: u8 = 0x10;
pub const BPF_MUL: u8 = 0x20;
pub const BPF_DIV: u8 = 0x30;
pub const BPF_OR: u8 = 0x40;
pub const BPF_AND: u8 = 0x50;
pub const BPF_LSH: u8 = 0x60;
pub const BPF_RSH: u8 = 0x70;
pub const BPF_NEG: u8 = 0x80;
pub const BPF_MOD: u8 = 0x90;
pub const BPF_XOR: u8 = 0xA0;
pub const BPF_MOV: u8 = 0xB0;
pub const BPF_ARSH: u8 = 0xC0;
pub const BPF_END: u8 = 0xD0;
pub const BPF_JA: u8 = 0x00;
pub const BPF_JEQ: u8 = 0x10;
pub const BPF_JGT: u8 = 0x20;
pub const BPF_JGE: u8 = 0x30;
pub const BPF_JSET: u8 = 0x40;
pub const BPF_JNE: u8 = 0x50;
pub const BPF_JSGT: u8 = 0x60;
pub const BPF_JSGE: u8 = 0x70;
pub const BPF_CALL: u8 = 0x80;
pub const BPF_EXIT: u8 = 0x90;
pub const BPF_JLT: u8 = 0xA0;
pub const BPF_JLE: u8 = 0xB0;
pub const BPF_JSLT: u8 = 0xC0;
pub const BPF_JSLE: u8 = 0xD0;
pub const BPF_REG_COUNT: usize = 11;
pub const BPF_REG_0: u8 = 0;
pub const BPF_REG_1: u8 = 1;
pub const BPF_REG_2: u8 = 2;
pub const BPF_REG_3: u8 = 3;
pub const BPF_REG_4: u8 = 4;
pub const BPF_REG_5: u8 = 5;
pub const BPF_REG_6: u8 = 6;
pub const BPF_REG_7: u8 = 7;
pub const BPF_REG_8: u8 = 8;
pub const BPF_REG_9: u8 = 9;
pub const BPF_REG_10: u8 = 10;
pub const BPF_REG_FP: u8 = 10;

/// Virtual address of the bottom of the program stack.
pub const BPF_STACK_BASE: u64 = 0x1000_0000;

/// Size of the program stack in bytes.
pub const BPF_STACK_SIZE: u64 = 512;

/// BPF execution context: registers, the program stack, and the memory the
/// program is given (its context or packet), which lies at `data_base`
#[derive(Clone)]
pub struct BpfContext {
    /// Registers
    pub regs: [u64; 11],
    /// Stack (512 bytes)
    pub stack: [u8; 512],
    /// Memory handed to the program
    pub data: Vec<u8>,
    /// Address of the first byte of `data`
    pub data_base: u64,
}

impl BpfContext {
    /// Zeroed registers and stack, with R10 at the top of the stack, and no
    /// memory besides the stack
    pub fn new() -> (r: Self)
        ensures
            r.regs@[10] == BPF_STACK_BASE + 512,
            forall|i: int| 0 <= i < 10 ==> r.regs@[i] == 0,
            forall|i: int| 0 <= i < 512 ==> r.stack@[i] == 0,
            r.data@ == Seq::<u8>::empty(),
            r.data_base == 0,
    {
        let mut ctx = BpfContext { regs: [0u64; 11], stack: [0u8; 512], data: Vec::new(), data_base: 0 };
        ctx.regs[10] = BPF_STACK_BASE + 512;
        ctx
    }

    /// Set argument (R1)
    pub fn set_arg(&mut self, arg: u64)
        ensures
            final(self).regs@ == old(self).regs@.update(1, arg),
            final(self).stack@ == old(self).stack@,
            final(self).data@ == old(self).data@,
            final(self).data_base == old(self).data_base,
    {
        self.regs[1] = arg;
    }

    /// Give the program the memory `data`, lying at address `base`
    pub fn set_data(&mut self, base: u64, data: Vec<u8>)
        ensures
            final(self).regs@ == old(self).regs@,
            final(self).stack@ == old(self).stack@,
            final(self).data@ == data@,
            final(self).data_base == base,
    {
        self.data = data;
        self.data_base = base;
    }

    /// Get return value (R0)
    pub fn return_value(&self) -> (r: u64)
        ensures
            r == self.regs@[0],
    {
        self.regs[0]
    }
}

impl Default for BpfContext {
    fn default() -> (r: Self)
        ensures
            r.regs@[10] == BPF_STACK_BASE + 512,
            forall|i: int| 0 <= i < 10 ==> r.regs@[i] == 0,
            forall|i: int| 0 <= i < 512 ==> r.stack@[i] == 0,
            r.data@ == Seq::<u8>::empty(),
            r.data_base == 0,
    {
        Self::new()
    }
}

/// BPF error
#[derive(Clone, Copy, Debug, PartialEq, Eq, Structural)]
pub enum BpfError {
    /// Invalid program
    InvalidProgram,
    /// Invalid instruction
    InvalidInstruction,
    /// Division by zero
    DivisionByZero,
    /// Out of bounds access
    OutOfBounds,
    /// Too many instructions
    TooManyInstructions,
    /// Invalid helper call
    InvalidHelper,
    /// Permission denied
    PermissionDenied,
    /// Map not found
    MapNotFound,
    /// Key not found
    KeyNotFound,
    /// Map full
    MapFull,
    /// Invalid map type
    InvalidMapType,
    /// Program too large
    ProgramTooLarge,
    /// Verification failed
    VerificationFailed,
    /// JIT compilation failed
    JitFailed,
}

impl BpfError {
    /// Convert to errno
    pub fn to_errno(&self) -> (r: i32)
        ensures
            r == match self {
                BpfError::InvalidProgram => -22i32,
                BpfError::InvalidInstruction => -22i32,
                BpfError::DivisionByZero => -22i32,
                BpfError::OutOfBounds => -14i32,
                BpfError::TooManyInstructions => -7i32,
                BpfError::InvalidHelper => -22i32,
                BpfError::PermissionDenied => -1i32,
                BpfError::MapNotFound => -2i32,
                BpfError::KeyNotFound => -2i32,
                BpfError::MapFull => -7i32,
                BpfError::InvalidMapType => -22i32,
                BpfError::ProgramTooLarge => -7i32,
                BpfError::VerificationFailed => -22i32,
                BpfError::JitFailed => -12i32,
            },
    {
        match self {
            BpfError::InvalidProgram => -22,
            BpfError::InvalidInstruction => -22,
            BpfError::DivisionByZero => -22,
            BpfError::OutOfBounds => -14,
            BpfError::TooManyInstructions => -7,
            BpfError::InvalidHelper => -22,
            BpfError::PermissionDenied => -1,
            BpfError::MapNotFound => -2,
            BpfError::KeyNotFound => -2,
            BpfError::MapFull => -7,
            BpfError::InvalidMapType => -22,
            BpfError::ProgramTooLarge => -7,
            BpfError::VerificationFailed => -22,
            BpfError::JitFailed => -12,
        }
    }
}

/// The result of an ALU operation (`code & 0xF0` selects it).
pub open spec fn alu_result(code: u8, dst: u64, src: u64) -> Result<u64, BpfError> {
    let op = code & 0xF0;
    if op == 0x00 { Ok(dst.wrapping_add(src)) }
    else if op == 0x10 { Ok(dst.wrapping_sub(src)) }
    else if op == 0x20 { Ok(dst.wrapping_mul(src)) }
    else if op == 0x30 { if src == 0 { Err(BpfError::DivisionByZero) } else { Ok(dst / src) } }
    else if op == 0x40 { Ok(dst | src) }
    else if op == 0x50 { Ok(dst & src) }
    else if op == 0x60 { Ok(dst << (src & 0x3F)) }
    else if op == 0x70 { Ok(dst >> (src & 0x3F)) }
    else if op == 0x80 { Ok(0u64.wrapping_sub(dst)) }
    else if op == 0x90 { if src == 0 { Err(BpfError::DivisionByZero) } else { Ok(dst % src) } }
    else if op == 0xA0 { Ok(dst ^ src) }
    else if op == 0xB0 { Ok(src) }
    else if op == 0xC0 { Ok(((dst as i64) >> (src & 0x3F)) as u64) }
    else { Err(BpfError::InvalidInstruction) }
}

/// Whether a jump with operation `op` is taken.
pub open spec fn jump_taken(op: u8, dst: u64, src: u64) -> bool {
    if op == 0x00 { true }
    else if op == 0x10 { dst == src }
    else if op == 0x20 { dst > src }
    else if op == 0x30 { dst >= src }
    else if op == 0x40 { (dst & src) != 0 }
    else if op == 0x50 { dst != src }
    else if op == 0x60 { (dst as i64) > (src as i64) }
    else if op == 0x70 { (dst as i64) >= (src as i64) }
    else if op == 0xA0 { dst < src }
    else if op == 0xB0 { dst <= src }
    else if op == 0xC0 { (dst as i64) < (src as i64) }
    else if op == 0xD0 { (dst as i64) <= (src as i64) }
    else { false }
}

/// Number of bytes moved by a memory instruction of this size field.
pub open spec fn access_width(size: u8) -> int {
    if size == 0x10 { 1 } else if size == 0x08 { 2 } else if size == 0x00 { 4 } else { 8 }
}

/// Whether `n` bytes at `addr` lie inside the program stack.
pub open spec fn in_stack(addr: u64, n: int) -> bool {
    addr >= BPF_STACK_BASE && addr - BPF_STACK_BASE + n <= 512
}

/// Whether `n` bytes at `addr` lie inside the memory of `len` bytes at `base`.
pub open spec fn in_data(addr: u64, n: int, base: u64, len: int) -> bool {
    addr >= base && addr - base + n <= len
}

/// `mem` with the low `n` bytes of `val` written at `off`, little endian.
pub open spec fn write_le(mem: Seq<u8>, off: int, n: int, val: u64) -> Seq<u8> {
    Seq::new(mem.len(), |j: int| if off <= j < off + n {
        ((val >> (8 * (j - off)) as u64) & 0xff) as u8
    } else {
        mem[j]
    })
}

/// Whether a size field names one of the four access widths.
pub open spec fn size_valid(size: u8) -> bool {
    size == 0x00 || size == 0x08 || size == 0x10 || size == 0x18
}

/// The value a load of `size` at `addr` reads: from the stack where it
/// lies there, else from the program's memory `data` at `base`.
pub open spec fn load_result(stack: Seq<u8>, data: Seq<u8>, base: u64, addr: u64, size: u8) -> Result<u64, BpfError> {
    let n = access_width(size);
    if !size_valid(size) {
        Err(BpfError::InvalidInstruction)
    } else if in_stack(addr, n) {
        let off = addr - BPF_STACK_BASE;
        Ok(le_value(stack.subrange(off, off + n)) as u64)
    } else if in_data(addr, n, base, data.len() as int) {
        let off = addr - base;
        Ok(le_value(data.subrange(off, off + n)) as u64)
    } else {
        Err(BpfError::OutOfBounds)
    }
}

/// The stack and memory after storing the low `size` bytes of `val` at
/// `addr`, little endian: in the stack where it lies there, else in `data`.
pub open spec fn store_result(stack: Seq<u8>, data: Seq<u8>, base: u64, addr: u64, size: u8, val: u64) -> Result<(Seq<u8>, Seq<u8>), BpfError> {
    let n = access_width(size);
    if !size_valid(size) {
        Err(BpfError::InvalidInstruction)
    } else if in_stack(addr, n) {
        Ok((write_le(stack, addr - BPF_STACK_BASE, n, val), data))
    } else if in_data(addr, n, base, data.len() as int) {
        Ok((stack, write_le(data, addr - base, n, val)))
    } else {
        Err(BpfError::OutOfBounds)
    }
}

/// Registers, stack, memory and helper state of a running program.
pub struct BpfMachine {
    pub regs: Seq<u64>,
    pub stack: Seq<u8>,
    pub data: Seq<u8>,
    pub data_base: u64,
    pub helpers: HelperState,
}

/// What one instruction does: go on at an instruction index, or stop with a result.
pub enum BpfStep {
    Next(int, BpfMachine),
    Stop(Result<u64, BpfError>, BpfMachine),
}

/// The effect of the instruction at `pc`.
pub open spec fn bpf_step(prog: Seq<BpfInsn>, pc: int, m: BpfMachine) -> BpfStep {
    let i = prog[pc];
    let dst = insn_dst(i) as int;
    let src = insn_src(i) as int;
    let class = i.code & 0x07;
    let size = i.code & 0x18;
    if class == 0x00 {
        if pc + 1 >= prog.len() {
            BpfStep::Stop(Err(BpfError::InvalidProgram), m)
        } else {
            let v = ((i.imm as u32) as u64) | (((prog[pc + 1].imm as u32) as u64) << 32u64);
            BpfStep::Next(pc + 2, BpfMachine { regs: m.regs.update(dst, v), ..m })
        }
    } else if class == 0x01 {
        let addr = m.regs[src].wrapping_add((i.off as i64) as u64);
        match load_result(m.stack, m.data, m.data_base, addr, size) {
            Ok(v) => BpfStep::Next(pc + 1, BpfMachine { regs: m.regs.update(dst, v), ..m }),
            Err(e) => BpfStep::Stop(Err(e), m),
        }
    } else if class == 0x02 || class == 0x03 {
        let addr = m.regs[dst].wrapping_add((i.off as i64) as u64);
        let val = if class == 0x02 { i.imm as u64 } else { m.regs[src] };
        match store_result(m.stack, m.data, m.data_base, addr, size, val) {
            Ok((s, d)) => BpfStep::Next(pc + 1, BpfMachine { stack: s, data: d, ..m }),
            Err(e) => BpfStep::Stop(Err(e), m),
        }
    } else if class == 0x04 {
        let src_val = if (i.code & 0x08) != 0 { (m.regs[src] as u32) as u64 } else { (i.imm as u32) as u64 };
        match alu_result(i.code, (m.regs[dst] as u32) as u64, src_val) {
            Ok(v) => BpfStep::Next(pc + 1, BpfMachine { regs: m.regs.update(dst, (v as u32) as u64), ..m }),
            Err(e) => BpfStep::Stop(Err(e), m),
        }
    } else if class == 0x05 {
        let op = i.code & 0xF0;
        if op == 0x90 {
            BpfStep::Stop(Ok(m.regs[0]), m)
        } else if op == 0x80 {
            let (r, h) = helper_outcome(m.helpers, i.imm);
            match r {
                Ok(v) => BpfStep::Next(pc + 1, BpfMachine { regs: m.regs.update(0, v), helpers: h, ..m }),
                Err(e) => BpfStep::Stop(Err(e), BpfMachine { helpers: h, ..m }),
            }
        } else {
            let src_val = if (i.code & 0x08) != 0 { m.regs[src] } else { (i.imm as i64) as u64 };
            if jump_taken(op, m.regs[dst], src_val) {
                let t = pc + i.off + 1;
                if t >= prog.len() || t < 0 {
                    BpfStep::Stop(Err(BpfError::InvalidProgram), m)
                } else {
                    BpfStep::Next(t, m)
                }
            } else {
                BpfStep::Next(pc + 1, m)
            }
        }
    } else if class == 0x06 {
        let op = i.code & 0xF0;
        let src_val = if (i.code & 0x08) != 0 { (m.regs[src] as u32) as u64 } else { (i.imm as u32) as u64 };
        if jump_taken(op, (m.regs[dst] as u32) as u64, src_val) {
            BpfStep::Next(pc + i.off + 1, m)
        } else {
            BpfStep::Next(pc + 1, m)
        }
    } else {
        let src_val = if (i.code & 0x08) != 0 { m.regs[src] } else { (i.imm as i64) as u64 };
        match alu_result(i.code, m.regs[dst], src_val) {
            Ok(v) => BpfStep::Next(pc + 1, BpfMachine { regs: m.regs.update(dst, v), ..m }),
            Err(e) => BpfStep::Stop(Err(e), m),
        }
    }
}

/// The result of running `prog` from `pc` with at most `budget` more
/// instructions, and the machine it leaves behind. Running off either end
/// of the program is an invalid program.
pub open spec fn bpf_run(prog: Seq<BpfInsn>, pc: int, m: BpfMachine, budget: nat) -> (Result<u64, BpfError>, BpfMachine)
    decreases budget,
{
    if !(0 <= pc < prog.len()) {
        (Err(BpfError::InvalidProgram), m)
    } else if budget == 0 {
        (Err(BpfError::TooManyInstructions), m)
    } else {
        match bpf_step(prog, pc, m) {
            BpfStep::Next(p, m2) => bpf_run(prog, p, m2, (budget - 1) as nat),
            BpfStep::Stop(r, m2) => (r, m2),
        }
    }
}

/// Every register number in the program names one of the eleven registers.
pub open spec fn registers_valid(prog: Seq<BpfInsn>) -> bool {
    forall|k: int| 0 <= k < prog.len() ==> insn_dst(#[trigger] prog[k]) < 11 && insn_src(prog[k]) < 11
}

/// The machine a context and helper state make up.
pub open spec fn machine_of(ctx: BpfContext, h: HelperState) -> BpfMachine {
    BpfMachine { regs: ctx.regs@, stack: ctx.stack@, data: ctx.data@, data_base: ctx.data_base, helpers: h }
}

/// Exec-side outcome of one instruction.
pub enum StepOutcome {
    /// Continue at this instruction index
    Jump(usize),
    /// Stop with this result
    Halt(Result<u64, BpfError>),
}

/// BPF interpreter
pub struct BpfInterpreter {
    /// Maximum instructions to execute
    pub max_insns: u64,
    /// State of the helper functions
    pub helper_state: HelperState,
}

fn width_of(size: u8) -> (n: u64)
    requires
        size_valid(size),
    ensures
        n == access_width(size),
        1 <= n <= 8,
{
    if size == 0x10 { 1 } else if size == 0x08 { 2 } else if size == 0x00 { 4 } else { 8 }
}

fn load_mem(ctx: &BpfContext, addr: u64, size: u8) -> (r: Result<u64, BpfError>)
    ensures
        r == load_result(ctx.stack@, ctx.data@, ctx.data_base, addr, size),
{
    if size != 0x00 && size != 0x08 && size != 0x10 && size != 0x18 {
        return Err(BpfError::InvalidInstruction);
    }
    let n = width_of(size);
    if addr >= BPF_STACK_BASE && addr - BPF_STACK_BASE <= 512 - n {
        let off = (addr - BPF_STACK_BASE) as usize;
        return Ok(crate::wire::read_le(vstd::array::array_as_slice(&ctx.stack), off, n as usize));
    }
    let len = ctx.data.len() as u64;
    if addr >= ctx.data_base && n <= len && addr - ctx.data_base <= len - n {
        let off = (addr - ctx.data_base) as usize;
        return Ok(crate::wire::read_le(ctx.data.as_slice(), off, n as usize));
    }
    Err(BpfError::OutOfBounds)
}

fn write_stack(stack: &mut [u8; 512], off: usize, n: u64, val: u64)
    requires
        n <= 8,
        off + n <= 512,
    ensures
        final(stack)@ == write_le(old(stack)@, off as int, n as int, val),
{
    let mut i: u64 = 0;
    while i < n
        invariant
            i <= n <= 8,
            off + n <= 512,
            forall|j: int| 0 <= j < 512 ==> stack@[j] == (if off <= j < off + i {
                ((val >> (8 * (j - off)) as u64) & 0xff) as u8
            } else {
                old(stack)@[j]
            }),
        decreases n - i,
    {
        stack[off + i as usize] = ((val >> (8 * i)) & 0xff) as u8;
        i = i + 1;
    }
    assert(stack@ =~= write_le(old(stack)@, off as int, n as int, val));
}

fn write_data(data: &mut Vec<u8>, off: usize, n: u64, val: u64)
    requires
        n <= 8,
        off + n <= old(data)@.len(),
    ensures
        final(data)@ == write_le(old(data)@, off as int, n as int, val),
{
    let mut i: u64 = 0;
    while i < n
        invariant
            i <= n <= 8,
            off + n <= data@.len(),
            data@.len() == data.len(),
            data@.len() == old(data)@.len(),
            forall|j: int| 0 <= j < data@.len() ==> data@[j] == (if off <= j < off + i {
                ((val >> (8 * (j - off)) as u64) & 0xff) as u8
            } else {
                old(data)@[j]
            }),
        decreases n - i,
    {
        data.set(off + i as usize, ((val >> (8 * i)) & 0xff) as u8);
        i = i + 1;
    }
    assert(data@ =~= write_le(old(data)@, off as int, n as int, val));
}

fn store_mem(ctx: &mut BpfContext, addr: u64, size: u8, val: u64) -> (r: Result<(), BpfError>)
    ensures
        final(ctx).regs@ == old(ctx).regs@,
        final(ctx).data_base == old(ctx).data_base,
        match store_result(old(ctx).stack@, old(ctx).data@, old(ctx).data_base, addr, size, val) {
            Ok((s, d)) => r is Ok && final(ctx).stack@ == s && final(ctx).data@ == d,
            Err(e) => r == Err::<(), BpfError>(e) && final(ctx).stack@ == old(ctx).stack@ && final(ctx).data@ == old(ctx).data@,
        },
{
    if size != 0x00 && size != 0x08 && size != 0x10 && size != 0x18 {
        return Err(BpfError::InvalidInstruction);
    }
    let n = width_of(size);
    if addr >= BPF_STACK_BASE && addr - BPF_STACK_BASE <= 512 - n {
        let off = (addr - BPF_STACK_BASE) as usize;
        write_stack(&mut ctx.stack, off, n, val);
        return Ok(());
    }
    let len = ctx.data.len() as u64;
    if addr >= ctx.data_base && n <= len && addr - ctx.data_base <= len - n {
        let off = (addr - ctx.data_base) as usize;
        write_data(&mut ctx.data, off, n, val);
        return Ok(());
    }
    Err(BpfError::OutOfBounds)
}

fn alu_op(code: u8, dst: u64, src: u64) -> (r: Result<u64, BpfError>)
    ensures
        r == alu_result(code, dst, src),
{
    let op = code & 0xF0;
    let sh = src & 0x3F;
    assert(src & 0x3F < 64) by (bit_vector);
    if op == 0x00 {
        Ok(dst.wrapping_add(src))
    } else if op == 0x10 {
        Ok(dst.wrapping_sub(src))
    } else if op == 0x20 {
        Ok(dst.wrapping_mul(src))
    } else if op == 0x30 {
        if src == 0 { Err(BpfError::DivisionByZero) } else { Ok(dst / src) }
    } else if op == 0x40 {
        Ok(dst | src)
    } else if op == 0x50 {
        Ok(dst & src)
    } else if op == 0x60 {
        Ok(dst << sh)
    } else if op == 0x70 {
        Ok(dst >> sh)
    } else if op == 0x80 {
        Ok(0u64.wrapping_sub(dst))
    } else if op == 0x90 {
        if src == 0 { Err(BpfError::DivisionByZero) } else { Ok(dst % src) }
    } else if op == 0xA0 {
        Ok(dst ^ src)
    } else if op == 0xB0 {
        Ok(src)
    } else if op == 0xC0 {
        Ok(((dst as i64) >> sh) as u64)
    } else {
        Err(BpfError::InvalidInstruction)
    }
}

fn jmp_op(op: u8, dst: u64, src: u64) -> (r: bool)
    ensures
        r == jump_taken(op, dst, src),
{
    if op == 0x00 {
        true
    } else if op == 0x10 {
        dst == src
    } else if op == 0x20 {
        dst > src
    } else if op == 0x30 {
        dst >= src
    } else if op == 0x40 {
        (dst & src) != 0
    } else if op == 0x50 {
        dst != src
    } else if op == 0x60 {
        (dst as i64) > (src as i64)
    } else if op == 0x70 {
        (dst as i64) >= (src as i64)
    } else if op == 0xA0 {
        dst < src
    } else if op == 0xB0 {
        dst <= src
    } else if op == 0xC0 {
        (dst as i64) < (src as i64)
    } else if op == 0xD0 {
        (dst as i64) <= (src as i64)
    } else {
        false
    }
}

impl BpfInterpreter {
    /// Interpreter with a budget of one million instructions
    pub fn new() -> (r: Self)
        ensures
            r.max_insns == 1_000_000,
            r.helper_state == HelperState::new_state(),
    {
        BpfInterpreter { max_insns: 1_000_000, helper_state: HelperState::new() }
    }

    /// Execute the instruction at `pc`
    fn step(&mut self, prog: &[BpfInsn], pc: usize, ctx: &mut BpfContext) -> (r: StepOutcome)
        requires
            pc < prog@.len(),
            registers_valid(prog@),
        ensures
            final(self).max_insns == old(self).max_insns,
            match r {
                StepOutcome::Jump(p) => p < prog@.len()
                    && bpf_step(prog@, pc as int, machine_of(*old(ctx), old(self).helper_state))
                        == BpfStep::Next(p as int, machine_of(*final(ctx), final(self).helper_state)),
                StepOutcome::Halt(res) => match bpf_step(prog@, pc as int, machine_of(*old(ctx), old(self).helper_state)) {
                    BpfStep::Stop(res2, m2) => res == res2 && m2 == machine_of(*final(ctx), final(self).helper_state),
                    BpfStep::Next(t, m2) => !(0 <= t < prog@.len()) && res == Err::<u64, BpfError>(BpfError::InvalidProgram)
                        && m2 == machine_of(*final(ctx), final(self).helper_state),
                },
            },
    {
        let ghost m0 = machine_of(*ctx, self.helper_state);
        let ins = prog[pc];
        assert(insn_dst(prog@[pc as int]) < 11 && insn_src(prog@[pc as int]) < 11);
        let dst = ins.dst() as usize;
        let src = ins.src() as usize;
        let class = ins.code & 0x07;
        let size = ins.code & 0x18;
        if class == 0x00 {
            if pc + 1 >= prog.len() {
                return StepOutcome::Halt(Err(BpfError::InvalidProgram));
            }
            let v = ((ins.imm as u32) as u64) | (((prog[pc + 1].imm as u32) as u64) << 32);
            ctx.regs[dst] = v;
            if pc + 2 >= prog.len() {
                return StepOutcome::Halt(Err(BpfError::InvalidProgram));
            }
            StepOutcome::Jump(pc + 2)
        } else if class == 0x01 {
            let addr = ctx.regs[src].wrapping_add((ins.off as i64) as u64);
            match load_mem(ctx, addr, size) {
                Ok(v) => {
                    ctx.regs[dst] = v;
                    if pc + 1 >= prog.len() {
                        return StepOutcome::Halt(Err(BpfError::InvalidProgram));
                    }
                    StepOutcome::Jump(pc + 1)
                },
                Err(e) => StepOutcome::Halt(Err(e)),
            }
        } else if class == 0x02 || class == 0x03 {
            let addr = ctx.regs[dst].wrapping_add((ins.off as i64) as u64);
            let val = if class == 0x02 { ins.imm as u64 } else { ctx.regs[src] };
            match store_mem(ctx, addr, size, val) {
                Ok(()) => {
                    if pc + 1 >= prog.len() {
                        return StepOutcome::Halt(Err(BpfError::InvalidProgram));
                    }
                    StepOutcome::Jump(pc + 1)
                },
                Err(e) => StepOutcome::Halt(Err(e)),
            }
        } else if class == 0x04 {
            let src_val = if (ins.code & 0x08) != 0 { (ctx.regs[src] as u32) as u64 } else { (ins.imm as u32) as u64 };
            match alu_op(ins.code, (ctx.regs[dst] as u32) as u64, src_val) {
                Ok(v) => {
                    ctx.regs[dst] = (v as u32) as u64;
                    if pc + 1 >= prog.len() {
                        return StepOutcome::Halt(Err(BpfError::InvalidProgram));
                    }
                    StepOutcome::Jump(pc + 1)
                },
                Err(e) => StepOutcome::Halt(Err(e)),
            }
        } else if class == 0x05 {
            let op = ins.code & 0xF0;
            if op == 0x90 {
                return StepOutcome::Halt(Ok(ctx.regs[0]));
            }
            if op == 0x80 {
                let r = call_helper(&mut self.helper_state, ins.imm, ctx.regs[1], ctx.regs[2], ctx.regs[3], ctx.regs[4], ctx.regs[5]);
                match r {
                    Ok(v) => {
                        ctx.regs[0] = v;
                        if pc + 1 >= prog.len() {
                            return StepOutcome::Halt(Err(BpfError::InvalidProgram));
                        }
                        return StepOutcome::Jump(pc + 1);
                    },
                    Err(e) => {
                        return StepOutcome::Halt(Err(e));
                    },
                }
            }
            let src_val = if (ins.code & 0x08) != 0 { ctx.regs[src] } else { (ins.imm as i64) as u64 };
            if jmp_op(op, ctx.regs[dst], src_val) {
                let t: i128 = pc as i128 + ins.off as i128 + 1;
                if t < 0 || t >= prog.len() as i128 {
                    return StepOutcome::Halt(Err(BpfError::InvalidProgram));
                }
                StepOutcome::Jump(t as usize)
            } else {
                if pc + 1 >= prog.len() {
                    return StepOutcome::Halt(Err(BpfError::InvalidProgram));
                }
                StepOutcome::Jump(pc + 1)
            }
        } else if class == 0x06 {
            let op = ins.code & 0xF0;
            let src_val = if (ins.code & 0x08) != 0 { (ctx.regs[src] as u32) as u64 } else { (ins.imm as u32) as u64 };
            if jmp_op(op, (ctx.regs[dst] as u32) as u64, src_val) {
                let t: i128 = pc as i128 + ins.off as i128 + 1;
                if t < 0 || t >= prog.len() as i128 {
                    return StepOutcome::Halt(Err(BpfError::InvalidProgram));
                }
                StepOutcome::Jump(t as usize)
            } else {
                if pc + 1 >= prog.len() {
                    return StepOutcome::Halt(Err(BpfError::InvalidProgram));
                }
                StepOutcome::Jump(pc + 1)
            }
        } else {
            let src_val = if (ins.code & 0x08) != 0 { ctx.regs[src] } else { (ins.imm as i64) as u64 };
            match alu_op(ins.code, ctx.regs[dst], src_val) {
                Ok(v) => {
                    ctx.regs[dst] = v;
                    if pc + 1 >= prog.len() {
                        return StepOutcome::Halt(Err(BpfError::InvalidProgram));
                    }
                    StepOutcome::Jump(pc + 1)
                },
                Err(e) => StepOutcome::Halt(Err(e)),
            }
        }
    }

    /// Run a program from its first instruction. Every register number in it
    /// must name one of the eleven registers.
    pub fn run(&mut self, prog: &[BpfInsn], ctx: &mut BpfContext) -> (r: Result<u64, BpfError>)
        requires
            registers_valid(prog@),
        ensures
            final(self).max_insns == old(self).max_insns,
            (r, machine_of(*final(ctx), final(self).helper_state))
                == bpf_run(prog@, 0, machine_of(*old(ctx), old(self).helper_state), old(self).max_insns as nat),
    {
        let ghost total = bpf_run(prog@, 0, machine_of(*ctx, self.helper_state), self.max_insns as nat);
        if prog.len() == 0 {
            return Err(BpfError::InvalidProgram);
        }
        let mut pc: usize = 0;
        let mut insn_count: u64 = 0;
        let ghost max0 = self.max_insns;
        loop
            invariant
                pc < prog@.len(),
                self.max_insns == max0,
                max0 == old(self).max_insns,
                total == bpf_run(prog@, 0, machine_of(*old(ctx), old(self).helper_state), old(self).max_insns as nat),
                insn_count <= self.max_insns,
                registers_valid(prog@),
                bpf_run(prog@, pc as int, machine_of(*ctx, self.helper_state), (self.max_insns - insn_count) as nat) == total,
            decreases self.max_insns - insn_count,
        {
            if insn_count >= self.max_insns {
                return Err(BpfError::TooManyInstructions);
            }
            insn_count = insn_count + 1;
            proof {
                reveal_with_fuel(bpf_run, 2);
            }
            match self.step(prog, pc, ctx) {
                StepOutcome::Jump(p) => {
                    pc = p;
                },
                StepOutcome::Halt(res) => {
                    return res;
                },
            }
        }
    }
}

impl Default for BpfInterpreter {
    fn default() -> (r: Self)
        ensures
            r.max_insns == 1_000_000,
            r.helper_state == HelperState::new_state(),
    {
        Self::new()
    }
}

/// A program that passes the checks names only the eleven registers, so
/// the interpreter can run it.
pub proof fn lemma_checked_program_runs(prog_type: BpfProgType, insns: Seq<BpfInsn>)
    requires
        prog_check::verify_spec(prog_type, insns) is Ok,
    ensures
        registers_valid(insns),
{
    prog_check::lemma_check_all_regs(insns, 0);
}

/// How 32-bit halves of a 64-bit value are taken and put together.
proof fn lemma_halves() by (bit_vector)
    ensures
        forall|x: u64| #[trigger] ((x as u32) as u64) == x % 0x1_0000_0000,
        forall|a: u32, b: u32| #[trigger] ((a as u64) | ((b as u64) << 32u64)) == (a as u64) + (b as u64) * 0x1_0000_0000,
{
}

/// The helpers' state: the clock reads its value and moves 1000 ns on, so
/// two readings in a row differ by 1000 (modulo 2^64) and the generator is
/// untouched; the random number is the low half of the generator's next
/// state, and the clock is untouched; every other helper leaves the state
/// as it is, and a tail call is refused.
pub proof fn lemma_helper_meaning(h: HelperState, id: i32)
    ensures
        ({
            let (r1, h1) = helper_outcome(h, helpers::BPF_FUNC_ktime_get_ns);
            let (r2, h2) = helper_outcome(h1, helpers::BPF_FUNC_ktime_get_ns);
            &&& r1 == Ok::<u64, BpfError>(h.ktime_ns)
            &&& r2 matches Ok(t2) && t2 as int == (h.ktime_ns as int + 1000) % 0x1_0000_0000_0000_0000
            &&& h2.prng_state == h.prng_state
        }),
        ({
            let (r, h1) = helper_outcome(h, helpers::BPF_FUNC_get_prandom_u32);
            &&& r matches Ok(v) && v as int == h1.prng_state as int % 0x1_0000_0000
            &&& h1.ktime_ns == h.ktime_ns
        }),
        id != helpers::BPF_FUNC_ktime_get_ns && id != helpers::BPF_FUNC_get_prandom_u32 ==> helper_outcome(h, id).1 == h,
        helper_outcome(h, helpers::BPF_FUNC_tail_call).0 == Err::<u64, BpfError>(BpfError::InvalidHelper),
{
    lemma_halves();
    let x = helpers::xorshift(h.prng_state);
    assert(((x as u32) as u64) == x % 0x1_0000_0000);
}

/// Loads read little endian, from the stack where the address lies in it
/// and else (for an address outside the stack) from the program's memory: a byte is the byte at the address,
/// and each wider load adds the next bytes at ever higher weights.
pub proof fn lemma_load_meaning(stack: Seq<u8>, data: Seq<u8>, base: u64, addr: u64)
    requires
        stack.len() == 512,
    ensures
        ({
            let from_stack = in_stack(addr, 8);
            let m = if from_stack { stack } else { data };
            let o = if from_stack { addr - BPF_STACK_BASE } else { addr - base };
            (from_stack || (!in_stack(addr, 1) && in_data(addr, 8, base, data.len() as int))) ==> {
                &&& load_result(stack, data, base, addr, 0x10) == Ok::<u64, BpfError>(m[o] as u64)
                &&& load_result(stack, data, base, addr, 0x08) == Ok::<u64, BpfError>((m[o] + 256 * m[o + 1]) as u64)
                &&& load_result(stack, data, base, addr, 0x00) == Ok::<u64, BpfError>(
                    (m[o] + 256 * m[o + 1] + 0x10000 * m[o + 2] + 0x1000000 * m[o + 3]) as u64)
                &&& load_result(stack, data, base, addr, 0x18) == Ok::<u64, BpfError>(
                    (m[o] + 0x100 * m[o + 1] + 0x10000 * m[o + 2] + 0x1000000 * m[o + 3] + 0x100000000 * m[o + 4]
                        + 0x10000000000 * m[o + 5] + 0x1000000000000 * m[o + 6] + 0x100000000000000 * m[o + 7]) as u64)
            }
        }),
{
    reveal_with_fuel(le_value, 9);
    let from_stack = in_stack(addr, 8);
    let m = if from_stack { stack } else { data };
    let o = if from_stack { addr - BPF_STACK_BASE } else { addr - base };
    if from_stack || (!in_stack(addr, 1) && in_data(addr, 8, base, data.len() as int)) {
        let w8 = m.subrange(o, o + 8);
        let w4 = m.subrange(o, o + 4);
        let w2 = m.subrange(o, o + 2);
        let w1 = m.subrange(o, o + 1);
        assert(w1.drop_first() =~= Seq::<u8>::empty());
        assert(w2.drop_first() =~= m.subrange(o + 1, o + 2));
        assert(w2.drop_first().drop_first() =~= Seq::<u8>::empty());
        assert(w4.drop_first() =~= m.subrange(o + 1, o + 4));
        assert(w4.drop_first().drop_first() =~= m.subrange(o + 2, o + 4));
        assert(w4.drop_first().drop_first().drop_first() =~= m.subrange(o + 3, o + 4));
        assert(w4.drop_first().drop_first().drop_first().drop_first() =~= Seq::<u8>::empty());
        assert(w8.drop_first() =~= m.subrange(o + 1, o + 8));
        assert(m.subrange(o + 1, o + 8).drop_first() =~= m.subrange(o + 2, o + 8));
        assert(m.subrange(o + 2, o + 8).drop_first() =~= m.subrange(o + 3, o + 8));
        assert(m.subrange(o + 3, o + 8).drop_first() =~= m.subrange(o + 4, o + 8));
        assert(m.subrange(o + 4, o + 8).drop_first() =~= m.subrange(o + 5, o + 8));
        assert(m.subrange(o + 5, o + 8).drop_first() =~= m.subrange(o + 6, o + 8));
        assert(m.subrange(o + 6, o + 8).drop_first() =~= m.subrange(o + 7, o + 8));
        assert(m.subrange(o + 7, o + 8).drop_first() =~= Seq::<u8>::empty());
    }
}

/// A wide load puts the two 32-bit immediates of its two instruction slots
/// together, the first as the low half, into its destination, and goes on
/// after both slots.
pub proof fn lemma_wide_load(prog: Seq<BpfInsn>, pc: int, m: BpfMachine)
    requires
        0 <= pc,
        pc + 1 < prog.len(),
        prog[pc].code & 0x07 == 0,
        m.regs.len() == 11,
        insn_dst(prog[pc]) < 11,
    ensures
        bpf_step(prog, pc, m) matches BpfStep::Next(p, m2) && p == pc + 2
            && m2.regs == m.regs.update(insn_dst(prog[pc]) as int, m2.regs[insn_dst(prog[pc]) as int])
            && m2.regs[insn_dst(prog[pc]) as int] as nat
                == (prog[pc].imm as u32) as nat + 0x1_0000_0000 * (prog[pc + 1].imm as u32) as nat,
{
    lemma_halves();
    let a = prog[pc].imm as u32;
    let b = prog[pc + 1].imm as u32;
    assert(((a as u64) | ((b as u64) << 32u64)) == (a as u64) + (b as u64) * 0x1_0000_0000);
}

/// A 32-bit add or subtract works on the low halves of its operands and
/// clears the high half of its destination.
pub proof fn lemma_alu32_step(prog: Seq<BpfInsn>, pc: int, m: BpfMachine)
    requires
        0 <= pc < prog.len(),
        prog[pc].code & 0x07 == 0x04,
        prog[pc].code & 0xF0 == 0x00 || prog[pc].code & 0xF0 == 0x10,
        m.regs.len() == 11,
        insn_dst(prog[pc]) < 11,
        insn_src(prog[pc]) < 11,
    ensures
        ({
            let i = prog[pc];
            let d = m.regs[insn_dst(i) as int] as int % 0x1_0000_0000;
            let sv = if i.code & 0x08 != 0 { m.regs[insn_src(i) as int] as int % 0x1_0000_0000 } else { (i.imm as u32) as int };
            bpf_step(prog, pc, m) matches BpfStep::Next(p, m2) && p == pc + 1 && ({
                let r = m2.regs[insn_dst(i) as int] as int;
                &&& r < 0x1_0000_0000
                &&& i.code & 0xF0 == 0x00 ==> r == (d + sv) % 0x1_0000_0000
                &&& i.code & 0xF0 == 0x10 ==> (r + sv) % 0x1_0000_0000 == d
            })
        }),
{
    lemma_halves();
    let i = prog[pc];
    let dv = m.regs[insn_dst(i) as int];
    let srcv = if (i.code & 0x08) != 0 { (m.regs[insn_src(i) as int] as u32) as u64 } else { (i.imm as u32) as u64 };
    assert(((dv as u32) as u64) == dv % 0x1_0000_0000);
    if (i.code & 0x08) != 0 {
        let x = m.regs[insn_src(i) as int];
        assert(((x as u32) as u64) == x % 0x1_0000_0000);
    }
    lemma_alu_meaning(i.code, (dv as u32) as u64, srcv);
    let v = alu_result(i.code, (dv as u32) as u64, srcv)->Ok_0;
    assert(((v as u32) as u64) == v % 0x1_0000_0000);
}

/// What the jump conditions test: `JA` always jumps; `JEQ` and `JNE` are
/// opposites and `JEQ` holds exactly for equal operands; `JGT`, `JGE`,
/// `JLT`, `JLE` compare as unsigned numbers; the signed comparisons are
/// the same relations on two's complement values, so a value with the top
/// bit set is below zero; `JSET` tests for a common bit.
pub proof fn lemma_jump_meaning(d: u64, s: u64)
    ensures
        jump_taken(0x00, d, s),
        jump_taken(0x10, d, s) <==> d as int == s as int,
        jump_taken(0x50, d, s) <==> !jump_taken(0x10, d, s),
        jump_taken(0x20, d, s) <==> d as int > s as int,
        jump_taken(0x30, d, s) <==> d as int >= s as int,
        jump_taken(0xA0, d, s) <==> (d as int) < (s as int),
        jump_taken(0xB0, d, s) <==> d as int <= s as int,
        jump_taken(0x60, d, s) <==> jump_taken(0xC0, s, d),
        jump_taken(0x70, d, s) <==> !jump_taken(0xC0, d, s),
        jump_taken(0xD0, d, s) <==> !jump_taken(0x60, d, s),
        jump_taken(0xC0, d, s) ==> !jump_taken(0xC0, s, d),
        jump_taken(0xC0, d, s) && jump_taken(0xC0, s, 0) ==> jump_taken(0xC0, d, 0),
        jump_taken(0xC0, d, 0) <==> d >= 0x8000_0000_0000_0000,
        jump_taken(0x40, d, s) <==> jump_taken(0x40, s, d),
        jump_taken(0x40, d, d) <==> d != 0,
        jump_taken(0x40, d, s) ==> d != 0 && s != 0,
{
    assert(((d as i64) < (0u64 as i64)) == (d >= 0x8000_0000_0000_0000)) by (bit_vector);
    assert((d & s) == (s & d) && (d & d) == d && ((d & s) != 0 ==> d != 0 && s != 0)) by (bit_vector);
}

/// What the 64-bit ALU operations compute, stated by what their results
/// satisfy: addition, subtraction, multiplication and negation modulo
/// 2^64, division and remainder by a non-zero divisor (by zero they fail),
/// the bitwise operations, shifts right, and moves.
pub proof fn lemma_alu_meaning(code: u8, dst: u64, src: u64)
    ensures
        code & 0xF0 == 0x00 ==> (alu_result(code, dst, src) matches Ok(v)
            && v as int == (dst as int + src as int) % 0x1_0000_0000_0000_0000),
        code & 0xF0 == 0x10 ==> (alu_result(code, dst, src) matches Ok(v)
            && (v as int + src as int) % 0x1_0000_0000_0000_0000 == dst as int),
        code & 0xF0 == 0x20 ==> (alu_result(code, dst, src) matches Ok(v)
            && v as int == (dst as int * src as int) % 0x1_0000_0000_0000_0000),
        (code & 0xF0 == 0x30 || code & 0xF0 == 0x90) && src == 0
            ==> alu_result(code, dst, src) == Err::<u64, BpfError>(BpfError::DivisionByZero),
        code & 0xF0 == 0x30 && src != 0 ==> (alu_result(code, dst, src) matches Ok(v)
            && v as int * src as int <= dst as int && (dst as int) < v as int * src as int + src as int),
        code & 0xF0 == 0x90 && src != 0 ==> (alu_result(code, dst, src) matches Ok(v)
            && v < src && v <= dst && (dst as int - v as int) % (src as int) == 0),
        code & 0xF0 == 0x80 ==> (alu_result(code, dst, src) matches Ok(v)
            && (v as int + dst as int) % 0x1_0000_0000_0000_0000 == 0),
        code & 0xF0 == 0xA0 ==> (alu_result(code, dst, src) matches Ok(v) && v ^ src == dst),
        code & 0xF0 == 0x50 ==> (alu_result(code, dst, src) matches Ok(v)
            && v & dst == v && v & src == v && forall|x: u64| #[trigger] (x & dst) == x && x & src == x ==> x & v == x),
        code & 0xF0 == 0x40 ==> (alu_result(code, dst, src) matches Ok(v)
            && v | dst == v && v | src == v && forall|x: u64| #[trigger] (x | dst) == x && x | src == x ==> x | v == x),
        code & 0xF0 == 0x70 ==> (alu_result(code, dst, src) matches Ok(v)
            && v as nat == dst as nat / vstd::arithmetic::power2::pow2((src % 64) as nat)),
        code & 0xF0 == 0xB0 ==> alu_result(code, dst, src) == Ok::<u64, BpfError>(src),
        code & 0xF0 == 0x60 && dst as nat * vstd::arithmetic::power2::pow2((src % 64) as nat) <= u64::MAX
            ==> (alu_result(code, dst, src) matches Ok(v)
            && v as nat == dst as nat * vstd::arithmetic::power2::pow2((src % 64) as nat)),
{
    let op = code & 0xF0;
    if op == 0x20 {
        assert(0 <= dst as nat * src as nat) by (nonlinear_arith);
    }
    if (op == 0x30 || op == 0x90) && src != 0 {
        let d = dst as int;
        let sv = src as int;
        vstd::arithmetic::div_mod::lemma_fundamental_div_mod(d, sv);
        vstd::arithmetic::div_mod::lemma_mod_bound(d, sv);
        vstd::arithmetic::div_mod::lemma_div_pos_is_pos(d, sv);
        let q = d / sv;
        let r = d % sv;
        assert(q * sv == sv * q) by (nonlinear_arith);
        assert(sv * q >= 0) by (nonlinear_arith)
            requires q >= 0, sv > 0;
        assert((dst / src) as int == q);
        assert((dst % src) as int == r);
        assert((sv * q) % sv == 0) by {
            vstd::arithmetic::div_mod::lemma_mod_multiples_basic(q, sv);
        }
    }
    if op == 0xA0 {
        assert((dst ^ src) ^ src == dst) by (bit_vector);
    }
    if op == 0x50 {
        assert((dst & src) & dst == (dst & src) && (dst & src) & src == (dst & src)
            && forall|x: u64| #[trigger] (x & dst) == x && x & src == x ==> x & (dst & src) == x) by (bit_vector);
    }
    if op == 0x40 {
        assert((dst | src) | dst == (dst | src) && (dst | src) | src == (dst | src)
            && forall|x: u64| #[trigger] (x | dst) == x && x | src == x ==> x | (dst | src) == x) by (bit_vector);
    }
    let sh = src & 0x3F;
    assert(sh == src % 64 && sh < 64) by (bit_vector)
        requires sh == src & 0x3F;
    if op == 0x70 {
        vstd::bits::lemma_u64_shr_is_div(dst, sh);
    }
    if op == 0x60 && dst as nat * vstd::arithmetic::power2::pow2((src % 64) as nat) <= u64::MAX {
        vstd::bits::lemma_u64_shl_is_mul(dst, sh);
    }
}

/// Only an exit stops a program with a result, and an exit answers with
/// register 0, leaving the machine as it is.
pub proof fn lemma_step_result_only_at_exit(prog: Seq<BpfInsn>, pc: int, m: BpfMachine)
    requires
        0 <= pc < prog.len(),
    ensures
        prog_check::is_exit(prog[pc]) ==> bpf_step(prog, pc, m) == BpfStep::Stop(Ok::<u64, BpfError>(m.regs[0]), m),
        bpf_step(prog, pc, m) matches BpfStep::Stop(r, m2) ==> (r is Ok ==> prog_check::is_exit(prog[pc])
            && r == Ok::<u64, BpfError>(m.regs[0]) && m2 == m),
{
}

/// A run answers at the first exit it executes: at an exit it stops with
/// register 0; a result only ever comes with register 0 of the machine it
/// stops on; running off either end of the program is an invalid program.
pub proof fn lemma_run_answers_at_exit(prog: Seq<BpfInsn>, pc: int, m: BpfMachine, budget: nat)
    ensures
        0 <= pc < prog.len() && budget > 0 && prog_check::is_exit(prog[pc])
            ==> bpf_run(prog, pc, m, budget) == (Ok::<u64, BpfError>(m.regs[0]), m),
        !(0 <= pc < prog.len()) ==> bpf_run(prog, pc, m, budget).0 == Err::<u64, BpfError>(BpfError::InvalidProgram),
        bpf_run(prog, pc, m, budget).0 is Ok ==> bpf_run(prog, pc, m, budget).0
            == Ok::<u64, BpfError>(bpf_run(prog, pc, m, budget).1.regs[0]),
    decreases budget,
{
    if 0 <= pc < prog.len() && budget > 0 {
        lemma_step_result_only_at_exit(prog, pc, m);
        match bpf_step(prog, pc, m) {
            BpfStep::Next(p, m2) => {
                lemma_run_answers_at_exit(prog, p, m2, (budget - 1) as nat);
            },
            BpfStep::Stop(r, m2) => {},
        }
    }
}

/// One step of a program whose jumps all go forward moves forward, and
/// never stops for want of budget.
proof fn lemma_step_forward(insns: Seq<BpfInsn>, pc: int, m: BpfMachine)
    requires
        0 <= pc < insns.len(),
        forall|k: int| 0 <= k < insns.len() && prog_check::has_jump_target(#[trigger] insns[k])
            ==> k < k + insns[k].off + 1 < insns.len(),
    ensures
        bpf_step(insns, pc, m) matches BpfStep::Next(p, _) ==> p > pc,
        bpf_step(insns, pc, m) matches BpfStep::Stop(r, _) ==> r != Err::<u64, BpfError>(BpfError::TooManyInstructions),
{
    assert(prog_check::has_jump_target(insns[pc]) ==> pc < pc + insns[pc].off + 1);
}

/// From `pc`, with a budget that covers the rest of a program whose jumps
/// all go forward, a run never runs out of instructions.
proof fn lemma_forward_run(insns: Seq<BpfInsn>, pc: int, m: BpfMachine, budget: nat)
    requires
        0 <= pc,
        budget >= insns.len() - pc,
        forall|k: int| 0 <= k < insns.len() && prog_check::has_jump_target(#[trigger] insns[k])
            ==> k < k + insns[k].off + 1 < insns.len(),
    ensures
        bpf_run(insns, pc, m, budget).0 != Err::<u64, BpfError>(BpfError::TooManyInstructions),
    decreases budget,
{
    if 0 <= pc < insns.len() {
        lemma_step_forward(insns, pc, m);
        match bpf_step(insns, pc, m) {
            BpfStep::Next(p, m2) => {
                lemma_forward_run(insns, p, m2, (budget - 1) as nat);
            },
            BpfStep::Stop(r, m2) => {},
        }
    }
}

/// A program that passes the checks has no loop: run from its first
/// instruction on any machine, with a budget of at least its length, it
/// never runs out of instructions.
pub proof fn lemma_checked_program_halts(prog_type: BpfProgType, insns: Seq<BpfInsn>, m: BpfMachine, budget: nat)
    requires
        prog_check::verify_spec(prog_type, insns) is Ok,
        budget >= insns.len(),
    ensures
        bpf_run(insns, 0, m, budget).0 != Err::<u64, BpfError>(BpfError::TooManyInstructions),
{
    prog_check::lemma_checked_jumps_forward(insns, 0);
    lemma_forward_run(insns, 0, m, budget);
}

/// Byte `j` of `val`, little endian.
pub open spec fn le_byte(val: u64, j: int) -> u8 {
    ((val >> (8 * j) as u64) & 0xff) as u8
}

proof fn lemma_pow256n_positive(n: nat)
    ensures
        pow256n(n) > 0,
    decreases n,
{
    if n > 0 {
        lemma_pow256n_positive((n - 1) as nat);
    }
}

/// The low `n` bytes of `val`, little endian, read back as a number: `val`
/// modulo 256 to the power `n`.
proof fn lemma_le_bytes_value(val: u64, n: nat)
    requires
        n <= 8,
    ensures
        le_value(Seq::new(n, |j: int| le_byte(val, j))) == (val as nat) % pow256n(n),
    decreases n,
{
    let s = Seq::new(n, |j: int| le_byte(val, j));
    if n == 0 {
        assert(pow256n(0) == 1);
    } else {
        let hi: u64 = val >> 8u64;
        lemma_le_bytes_value(hi, (n - 1) as nat);
        assert(s.drop_first() =~= Seq::new((n - 1) as nat, |j: int| le_byte(hi, j))) by {
            assert forall|j: int| 0 <= j < n - 1 implies #[trigger] le_byte(val, j + 1) == le_byte(hi, j) by {
                let k: u64 = j as u64;
                assert(((val >> (8 * (k + 1)) as u64) & 0xff) == (((val >> 8u64) >> (8 * k) as u64) & 0xff)) by (bit_vector)
                    requires k < 7;
            }
        }
        assert(le_byte(val, 0) as nat == (val as nat) % 256 && hi as nat == (val as nat) / 256) by {
            assert(((val >> 0u64) & 0xff) as u8 as u64 == val % 256 && val >> 8u64 == val / 256) by (bit_vector);
        }
        lemma_pow256n_positive((n - 1) as nat);
        vstd::arithmetic::div_mod::lemma_mod_breakdown(val as int, 256, pow256n((n - 1) as nat) as int);
        assert(pow256n(n) == 256 * pow256n((n - 1) as nat));
    }
}

/// A load right after a store, at the same address and of the same width,
/// reads back what was stored, cut to that width; so from the stack and
/// from the program's memory alike.
pub proof fn lemma_store_then_load(stack: Seq<u8>, data: Seq<u8>, base: u64, addr: u64, size: u8, val: u64)
    requires
        stack.len() == 512,
        store_result(stack, data, base, addr, size, val) is Ok,
    ensures
        ({
            let (s, d) = store_result(stack, data, base, addr, size, val)->Ok_0;
            load_result(s, d, base, addr, size)
                == Ok::<u64, BpfError>(((val as nat) % pow256n(access_width(size) as nat)) as u64)
        }),
{
    let n = access_width(size);
    let (s, d) = store_result(stack, data, base, addr, size, val)->Ok_0;
    let bytes = Seq::new(n as nat, |j: int| le_byte(val, j));
    lemma_le_bytes_value(val, n as nat);
    if in_stack(addr, n) {
        let off = addr - BPF_STACK_BASE;
        assert(s.subrange(off, off + n) =~= bytes);
    } else {
        let off = addr - base;
        assert(d.subrange(off, off + n) =~= bytes);
    }
}

} // verus!
