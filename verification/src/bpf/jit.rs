//! BPF JIT compiler for x86-64.
//!
//! The compiler emits a prologue (frame set-up, callee-saved registers, a
//! 512-byte stack), then code for each instruction in order. ALU64
//! instructions on registers and immediates, calls and exits are
//! translated; other instructions produce no code yet.
use vstd::prelude::*;
use super::{BpfInsn, BpfError, insn_dst, insn_src};
use super::{BPF_ADD, BPF_SUB, BPF_OR, BPF_AND};
use super::{BPF_XOR, BPF_MOV};
use super::{BPF_JEQ, BPF_JGT, BPF_JGE, BPF_JSET, BPF_JNE, BPF_EXIT, BPF_CALL};
use crate::wire::{le32, le64, push_u32_le, push_u64_le, extend_bytes};
use x86_regs::{x86_reg_of, RAX, RSP, RBP};

pub mod x86_regs;

verus! {

/// Whether the JIT compiler may be used.
pub struct JitSwitch {
    pub enabled: bool,
}

impl JitSwitch {
    /// The switch as the kernel starts: enabled.
    pub fn new() -> (r: Self)
        ensures
            r.enabled,
    {
        JitSwitch { enabled: true }
    }
}

impl Default for JitSwitch {
    fn default() -> (r: Self)
        ensures
            r.enabled,
    {
        JitSwitch::new()
    }
}

/// Enable/disable JIT
pub fn set_jit_enabled(switch: &mut JitSwitch, enabled: bool)
    ensures
        final(switch).enabled == enabled,
{
    switch.enabled = enabled;
}

/// Check if JIT is enabled
pub fn is_jit_enabled(switch: &JitSwitch) -> (r: bool)
    ensures
        r == switch.enabled,
{
    switch.enabled
}

// -----------------------------------------------------------------------------
// Encodings
// -----------------------------------------------------------------------------

/// The REX prefix byte for these fields.
pub open spec fn rex_byte(w: bool, r: u8, x: u8, b: u8) -> u8 {
    0x40u8 | (if w { 0x08u8 } else { 0u8 }) | (if r >= 8 { 0x04u8 } else { 0u8 })
        | (if x != 0 { 0x02u8 } else { 0u8 }) | (if b >= 8 { 0x01u8 } else { 0u8 })
}

/// The REX prefix, left out when it carries no field.
pub open spec fn rex_bytes(w: bool, r: u8, x: u8, b: u8) -> Seq<u8> {
    if rex_byte(w, r, x, b) != 0x40 { seq![rex_byte(w, r, x, b)] } else { Seq::empty() }
}

/// The REX.W prefix (64-bit operand size).
pub open spec fn rex_w_bytes(r: u8, b: u8) -> Seq<u8> {
    rex_bytes(true, r, 0, b)
}

/// A ModRM byte.
pub open spec fn modrm_byte(mode: u8, reg: u8, rm: u8) -> u8 {
    (mode << 6u8) | ((reg & 7u8) << 3u8) | (rm & 7u8)
}

/// Function prologue: push rbp; mov rbp, rsp; push rbx, r13, r14, r15; sub rsp, 512.
pub open spec fn prologue_bytes() -> Seq<u8> {
    seq![0x55u8, 0x48, 0x89, 0xE5, 0x53, 0x41, 0x55, 0x41, 0x56, 0x41, 0x57, 0x48, 0x81, 0xEC, 0x00, 0x02, 0x00, 0x00]
}

/// Function epilogue: add rsp, 512; pop r15, r14, r13, rbx, rbp; ret.
pub open spec fn epilogue_bytes() -> Seq<u8> {
    seq![0x48u8, 0x81, 0xC4, 0x00, 0x02, 0x00, 0x00, 0x41, 0x5F, 0x41, 0x5E, 0x41, 0x5D, 0x5B, 0x5D, 0xC3]
}

/// mov dst, imm (sign-extended 32-bit form when the value fits, else movabs).
pub open spec fn mov64_imm_bytes(dst: u8, imm: i64) -> Seq<u8> {
    let x = x86_reg_of(dst);
    if i32::MIN <= imm <= i32::MAX {
        rex_w_bytes(0, x) + seq![0xC7u8, modrm_byte(3, 0, x)] + le32((imm as i32) as u32)
    } else {
        rex_w_bytes(0, x) + seq![(0xB8u8 + (x & 7u8)) as u8] + le64(imm as u64)
    }
}

/// mov dst, src
pub open spec fn mov64_reg_bytes(dst: u8, src: u8) -> Seq<u8> {
    let d = x86_reg_of(dst);
    let s = x86_reg_of(src);
    rex_w_bytes(s, d) + seq![0x89u8, modrm_byte(3, s, d)]
}

/// The x86 opcode of a register-to-register ALU operation, if it has one.
pub open spec fn alu_reg_opcode(op: u8) -> Option<u8> {
    if op == BPF_ADD { Some(0x01u8) }
    else if op == BPF_SUB { Some(0x29u8) }
    else if op == BPF_AND { Some(0x21u8) }
    else if op == BPF_OR { Some(0x09u8) }
    else if op == BPF_XOR { Some(0x31u8) }
    else { None }
}

/// The ModRM opcode extension of an immediate ALU operation.
pub open spec fn alu_imm_ext(op: u8) -> u8 {
    if op == BPF_ADD { 0 }
    else if op == BPF_SUB { 5 }
    else if op == BPF_AND { 4 }
    else if op == BPF_OR { 1 }
    else if op == BPF_XOR { 6 }
    else { 0 }
}

/// dst op= src (no operation bytes for an operation without an encoding)
pub open spec fn alu64_reg_bytes(op: u8, dst: u8, src: u8) -> Seq<u8> {
    let d = x86_reg_of(dst);
    let s = x86_reg_of(src);
    rex_w_bytes(s, d) + match alu_reg_opcode(op) {
        Some(c) => seq![c, modrm_byte(3, s, d)],
        None => Seq::empty(),
    }
}

/// dst op= imm (8-bit immediate form when the value fits)
pub open spec fn alu64_imm_bytes(op: u8, dst: u8, imm: i32) -> Seq<u8> {
    let d = x86_reg_of(dst);
    if -128 <= imm <= 127 {
        rex_w_bytes(0, d) + seq![0x83u8, modrm_byte(3, alu_imm_ext(op), d), imm as u8]
    } else {
        rex_w_bytes(0, d) + seq![0x81u8, modrm_byte(3, alu_imm_ext(op), d)] + le32(imm as u32)
    }
}

/// A helper call, for now: xor rax, rax.
pub open spec fn call_bytes() -> Seq<u8> {
    seq![0x48u8, 0x31, 0xC0]
}

/// The code for one instruction.
pub open spec fn insn_code(i: BpfInsn) -> Seq<u8> {
    let class = i.code & 0x07u8;
    let op = i.code & 0xF0u8;
    if class == 0x07 {
        if (i.code & 0x08u8) != 0 {
            if op == BPF_MOV { mov64_reg_bytes(insn_dst(i), insn_src(i)) } else { alu64_reg_bytes(op, insn_dst(i), insn_src(i)) }
        } else {
            if op == BPF_MOV { mov64_imm_bytes(insn_dst(i), i.imm as i64) } else { alu64_imm_bytes(op, insn_dst(i), i.imm) }
        }
    } else if class == 0x05 {
        if op == BPF_EXIT { epilogue_bytes() } else if op == BPF_CALL { call_bytes() } else { Seq::empty() }
    } else {
        Seq::empty()
    }
}

/// The code for a run of instructions, one after the other.
pub open spec fn insns_code(s: Seq<BpfInsn>) -> Seq<u8>
    decreases s.len(),
{
    if s.len() == 0 { Seq::empty() } else { insns_code(s.drop_last()) + insn_code(s.last()) }
}

/// The compiled program: prologue, then each instruction's code.
pub open spec fn jit_code(s: Seq<BpfInsn>) -> Seq<u8> {
    prologue_bytes() + insns_code(s)
}

/// The condition code byte of a conditional jump.
pub open spec fn jcc_byte(op: u8) -> u8 {
    if op == BPF_JEQ { 0x84 }
    else if op == BPF_JNE { 0x85 }
    else if op == BPF_JGT { 0x87 }
    else if op == BPF_JGE { 0x83 }
    else if op == BPF_JSET { 0x85 }
    else { 0x84 }
}

/// The code after patching the pending jumps from index `i` on: each gets
/// the distance from its end to its target's code offset.
pub open spec fn fixup_spec(code: Seq<u8>, offsets: Seq<usize>, jumps: Seq<(usize, usize, i16)>, i: int) -> Seq<u8>
    decreases jumps.len() - i,
{
    if i >= jumps.len() || i < 0 {
        code
    } else {
        let (at, target, _) = jumps[i];
        let rel = (offsets[target as int] as i32) - (at as i32) - 6;
        let bytes = le32(rel as i32 as u32);
        let patched = code.update(at + 2, bytes[0]).update(at + 3, bytes[1]).update(at + 4, bytes[2]).update(at + 5, bytes[3]);
        fixup_spec(patched, offsets, jumps, i + 1)
    }
}

// -----------------------------------------------------------------------------
// JIT context
// -----------------------------------------------------------------------------

/// JIT compilation context
pub struct JitContext {
    /// Generated code
    code: Vec<u8>,
    /// Instruction offsets (BPF PC -> code offset)
    offsets: Vec<usize>,
    /// Pending jumps to fix up: (code offset, target pc, original offset)
    pending_jumps: Vec<(usize, usize, i16)>,
}

impl JitContext {
    /// The code generated so far.
    pub closed spec fn code_bytes(&self) -> Seq<u8> {
        self.code@
    }

    /// The code offset of each instruction.
    pub closed spec fn code_offsets(&self) -> Seq<usize> {
        self.offsets@
    }

    /// Jumps still to be patched.
    pub closed spec fn jumps(&self) -> Seq<(usize, usize, i16)> {
        self.pending_jumps@
    }

    /// Create new context
    pub fn new(prog_len: usize) -> (r: Self)
        requires
            prog_len < usize::MAX,
        ensures
            r.code_bytes() == Seq::<u8>::empty(),
            r.code_offsets() == Seq::new((prog_len + 1) as nat, |i: int| 0usize),
            r.jumps() == Seq::<(usize, usize, i16)>::empty(),
    {
        let mut offsets: Vec<usize> = Vec::new();
        let mut i: usize = 0;
        while i <= prog_len
            invariant
                prog_len < usize::MAX,
                i <= prog_len + 1,
                offsets@ == Seq::new(i as nat, |k: int| 0usize),
            decreases prog_len + 1 - i,
        {
            offsets.push(0);
            i = i + 1;
            assert(offsets@ =~= Seq::new(i as nat, |k: int| 0usize));
        }
        JitContext { code: Vec::new(), offsets, pending_jumps: Vec::new() }
    }

    /// Emit byte
    fn emit(&mut self, byte: u8)
        ensures
            final(self).code@ == old(self).code@.push(byte),
            final(self).offsets == old(self).offsets,
            final(self).pending_jumps == old(self).pending_jumps,
    {
        self.code.push(byte);
    }

    /// Emit 32-bit immediate
    fn emit_imm32(&mut self, imm: i32)
        ensures
            final(self).code@ == old(self).code@ + le32(imm as u32),
            final(self).offsets == old(self).offsets,
            final(self).pending_jumps == old(self).pending_jumps,
    {
        push_u32_le(&mut self.code, imm as u32);
    }

    /// Emit 64-bit immediate
    fn emit_imm64(&mut self, imm: i64)
        ensures
            final(self).code@ == old(self).code@ + le64(imm as u64),
            final(self).offsets == old(self).offsets,
            final(self).pending_jumps == old(self).pending_jumps,
    {
        push_u64_le(&mut self.code, imm as u64);
    }

    /// Current code position
    fn pos(&self) -> (r: usize)
        ensures
            r == self.code@.len(),
    {
        self.code.len()
    }

    /// Emit REX prefix
    fn emit_rex(&mut self, w: bool, r: u8, x: u8, b: u8)
        ensures
            final(self).code@ == old(self).code@ + rex_bytes(w, r, x, b),
            final(self).offsets == old(self).offsets,
            final(self).pending_jumps == old(self).pending_jumps,
    {
        let rex = 0x40u8
            | (if w { 0x08u8 } else { 0u8 })
            | (if x86_regs::needs_rex_r(r) { 0x04u8 } else { 0u8 })
            | (if x != 0 { 0x02u8 } else { 0u8 })
            | (if x86_regs::needs_rex_r(b) { 0x01u8 } else { 0u8 });
        if rex != 0x40 {
            self.emit(rex);
            assert(self.code@ =~= old(self).code@ + rex_bytes(w, r, x, b));
        } else {
            assert(self.code@ =~= old(self).code@ + rex_bytes(w, r, x, b));
        }
    }

    /// Emit REX.W prefix (64-bit operation)
    fn emit_rex_w(&mut self, r: u8, b: u8)
        ensures
            final(self).code@ == old(self).code@ + rex_w_bytes(r, b),
            final(self).offsets == old(self).offsets,
            final(self).pending_jumps == old(self).pending_jumps,
    {
        self.emit_rex(true, r, 0, b);
    }

    /// Emit ModRM byte
    fn emit_modrm(&mut self, mode: u8, reg: u8, rm: u8)
        ensures
            final(self).code@ == old(self).code@.push(modrm_byte(mode, reg, rm)),
            final(self).offsets == old(self).offsets,
            final(self).pending_jumps == old(self).pending_jumps,
    {
        let r = x86_regs::reg_code(reg);
        let m = x86_regs::reg_code(rm);
        assert(r << 3u8 == (reg & 7u8) << 3u8);
        self.emit((mode << 6) | (r << 3) | m);
    }

    /// Emit bytes
    fn emit_bytes(&mut self, bytes: &[u8])
        ensures
            final(self).code@ == old(self).code@ + bytes@,
            final(self).offsets == old(self).offsets,
            final(self).pending_jumps == old(self).pending_jumps,
    {
        extend_bytes(&mut self.code, bytes);
    }

    /// Emit function prologue
    fn emit_prologue(&mut self)
        ensures
            final(self).code@ == old(self).code@ + prologue_bytes(),
            final(self).offsets == old(self).offsets,
            final(self).pending_jumps == old(self).pending_jumps,
    {
        proof {
            lemma_fixed_encodings();
        }
        // push rbp; mov rbp, rsp
        self.emit(0x55);
        self.emit_rex_w(RBP, RSP);
        self.emit(0x89);
        self.emit_modrm(0b11, RSP, RBP);
        // push rbx; push r13; push r14; push r15
        self.emit(0x53);
        self.emit(0x41);
        self.emit(0x55);
        self.emit(0x41);
        self.emit(0x56);
        self.emit(0x41);
        self.emit(0x57);
        // sub rsp, 512
        self.emit_rex_w(0, RSP);
        self.emit(0x81);
        self.emit_modrm(0b11, 5, RSP);
        self.emit_imm32(512);
        assert(self.code@ =~= old(self).code@ + prologue_bytes());
    }

    /// Emit function epilogue
    fn emit_epilogue(&mut self)
        ensures
            final(self).code@ == old(self).code@ + epilogue_bytes(),
            final(self).offsets == old(self).offsets,
            final(self).pending_jumps == old(self).pending_jumps,
    {
        proof {
            lemma_fixed_encodings();
        }
        // add rsp, 512
        self.emit_rex_w(0, RSP);
        self.emit(0x81);
        self.emit_modrm(0b11, 0, RSP);
        self.emit_imm32(512);
        // pop r15; pop r14; pop r13; pop rbx; pop rbp; ret
        self.emit(0x41);
        self.emit(0x5F);
        self.emit(0x41);
        self.emit(0x5E);
        self.emit(0x41);
        self.emit(0x5D);
        self.emit(0x5B);
        self.emit(0x5D);
        self.emit(0xC3);
        assert(self.code@ =~= old(self).code@ + epilogue_bytes());
    }

    /// Emit mov reg64, imm64
    fn emit_mov64_imm(&mut self, dst: u8, imm: i64)
        ensures
            final(self).code@ == old(self).code@ + mov64_imm_bytes(dst, imm),
            final(self).offsets == old(self).offsets,
            final(self).pending_jumps == old(self).pending_jumps,
    {
        let x86_dst = x86_regs::bpf_to_x86(dst);
        if imm >= i32::MIN as i64 && imm <= i32::MAX as i64 {
            // 32-bit sign-extended move
            self.emit_rex_w(0, x86_dst);
            self.emit(0xC7);
            self.emit_modrm(0b11, 0, x86_dst);
            self.emit_imm32(imm as i32);
        } else {
            // full 64-bit move
            self.emit_rex_w(0, x86_dst);
            self.emit(0xB8 + x86_regs::reg_code(x86_dst));
            self.emit_imm64(imm);
        }
        assert(self.code@ =~= old(self).code@ + mov64_imm_bytes(dst, imm));
    }

    /// Emit mov reg64, reg64
    fn emit_mov64_reg(&mut self, dst: u8, src: u8)
        ensures
            final(self).code@ == old(self).code@ + mov64_reg_bytes(dst, src),
            final(self).offsets == old(self).offsets,
            final(self).pending_jumps == old(self).pending_jumps,
    {
        let x86_dst = x86_regs::bpf_to_x86(dst);
        let x86_src = x86_regs::bpf_to_x86(src);
        self.emit_rex_w(x86_src, x86_dst);
        self.emit(0x89);
        self.emit_modrm(0b11, x86_src, x86_dst);
        assert(self.code@ =~= old(self).code@ + mov64_reg_bytes(dst, src));
    }

    /// Emit ALU operation: dst op= src
    fn emit_alu64_reg(&mut self, op: u8, dst: u8, src: u8)
        ensures
            final(self).code@ == old(self).code@ + alu64_reg_bytes(op, dst, src),
            final(self).offsets == old(self).offsets,
            final(self).pending_jumps == old(self).pending_jumps,
    {
        let x86_dst = x86_regs::bpf_to_x86(dst);
        let x86_src = x86_regs::bpf_to_x86(src);
        self.emit_rex_w(x86_src, x86_dst);
        let opcode: u8 = if op == BPF_ADD {
            0x01
        } else if op == BPF_SUB {
            0x29
        } else if op == BPF_AND {
            0x21
        } else if op == BPF_OR {
            0x09
        } else if op == BPF_XOR {
            0x31
        } else {
            0
        };
        if opcode != 0 {
            self.emit(opcode);
            self.emit_modrm(0b11, x86_src, x86_dst);
        }
        assert(self.code@ =~= old(self).code@ + alu64_reg_bytes(op, dst, src));
    }

    /// Emit ALU operation: dst op= imm
    fn emit_alu64_imm(&mut self, op: u8, dst: u8, imm: i32)
        ensures
            final(self).code@ == old(self).code@ + alu64_imm_bytes(op, dst, imm),
            final(self).offsets == old(self).offsets,
            final(self).pending_jumps == old(self).pending_jumps,
    {
        let x86_dst = x86_regs::bpf_to_x86(dst);
        self.emit_rex_w(0, x86_dst);
        let ext: u8 = if op == BPF_ADD {
            0
        } else if op == BPF_SUB {
            5
        } else if op == BPF_AND {
            4
        } else if op == BPF_OR {
            1
        } else if op == BPF_XOR {
            6
        } else {
            0
        };
        if imm >= -128 && imm <= 127 {
            // short form
            self.emit(0x83);
            self.emit_modrm(0b11, ext, x86_dst);
            self.emit(imm as u8);
        } else {
            self.emit(0x81);
            self.emit_modrm(0b11, ext, x86_dst);
            self.emit_imm32(imm);
        }
        assert(self.code@ =~= old(self).code@ + alu64_imm_bytes(op, dst, imm));
    }

    /// Emit conditional jump, with a placeholder offset to fix up
    fn emit_jcc(&mut self, op: u8, target_pc: usize, current_pc: usize)
        ensures
            final(self).code@ == old(self).code@ + seq![0x0Fu8, jcc_byte(op), 0, 0, 0, 0],
            final(self).offsets == old(self).offsets,
            final(self).pending_jumps@ == old(self).pending_jumps@.push((old(self).code@.len() as usize, target_pc, 0i16)),
    {
        let code_offset = self.pos();
        let cc: u8 = if op == BPF_JEQ {
            0x84
        } else if op == BPF_JNE {
            0x85
        } else if op == BPF_JGT {
            0x87
        } else if op == BPF_JGE {
            0x83
        } else if op == BPF_JSET {
            0x85
        } else {
            0x84
        };
        self.emit(0x0F);
        self.emit(cc);
        self.emit_imm32(0);
        self.pending_jumps.push((code_offset, target_pc, 0));
        assert(self.code@ =~= old(self).code@ + seq![0x0Fu8, jcc_byte(op), 0, 0, 0, 0]);
    }

    /// Fix up pending jumps
    fn fixup_jumps(&mut self)
        requires
            old(self).pending_jumps@.len() > 0 ==> old(self).code@.len() <= i32::MAX,
            forall|j: int| 0 <= j < old(self).pending_jumps@.len() ==> {
                let (at, target, _) = #[trigger] old(self).pending_jumps@[j];
                &&& at + 6 <= old(self).code@.len()
                &&& target < old(self).offsets@.len()
                &&& old(self).offsets@[target as int] <= i32::MAX
            },
        ensures
            final(self).code@ == fixup_spec(old(self).code@, old(self).offsets@, old(self).pending_jumps@, 0),
            final(self).offsets == old(self).offsets,
            final(self).pending_jumps == old(self).pending_jumps,
    {
        let mut k: usize = 0;
        while k < self.pending_jumps.len()
            invariant
                k <= self.pending_jumps@.len(),
                self.pending_jumps == old(self).pending_jumps,
                self.offsets == old(self).offsets,
                self.code@.len() == old(self).code@.len(),
                old(self).pending_jumps@.len() > 0 ==> old(self).code@.len() <= i32::MAX,
                forall|j: int| 0 <= j < old(self).pending_jumps@.len() ==> {
                    let (at, target, _) = #[trigger] old(self).pending_jumps@[j];
                    &&& at + 6 <= old(self).code@.len()
                    &&& target < old(self).offsets@.len()
                    &&& old(self).offsets@[target as int] <= i32::MAX
                },
                fixup_spec(self.code@, self.offsets@, self.pending_jumps@, k as int)
                    == fixup_spec(old(self).code@, old(self).offsets@, old(self).pending_jumps@, 0),
            decreases self.pending_jumps@.len() - k,
        {
            let (code_offset, target_pc, _) = self.pending_jumps[k];
            assert(self.pending_jumps@[k as int] == (code_offset, target_pc, self.pending_jumps@[k as int].2));
            let target_offset = self.offsets[target_pc];
            let rel32: i32 = (target_offset as i32) - (code_offset as i32) - 6;
            let mut bytes: Vec<u8> = Vec::new();
            push_u32_le(&mut bytes, rel32 as u32);
            self.code.set(code_offset + 2, bytes[0]);
            self.code.set(code_offset + 3, bytes[1]);
            self.code.set(code_offset + 4, bytes[2]);
            self.code.set(code_offset + 5, bytes[3]);
            k = k + 1;
        }
    }
}

/// The byte values of the fixed encodings the compiler emits.
proof fn lemma_fixed_encodings() by (bit_vector)
    ensures
        rex_byte(true, 5, 0, 4) == 0x48,
        rex_byte(true, 0, 0, 4) == 0x48,
        rex_byte(true, 0, 0, 0) == 0x48,
        modrm_byte(3, 4, 5) == 0xE5,
        modrm_byte(3, 5, 4) == 0xEC,
        modrm_byte(3, 0, 4) == 0xC4,
        modrm_byte(3, 0, 0) == 0xC0,
{
}

/// BPF JIT compiler
pub struct BpfJit;

impl BpfJit {
    /// Compile BPF program to native code
    pub fn compile(switch: &JitSwitch, insns: &[BpfInsn]) -> (r: Result<CompiledProgram, BpfError>)
        requires
            insns@.len() < usize::MAX,
        ensures
            match r {
                Ok(p) => switch.enabled && p.code@ == jit_code(insns@),
                Err(e) => !switch.enabled && e == BpfError::JitFailed,
            },
    {
        if !is_jit_enabled(switch) {
            return Err(BpfError::JitFailed);
        }
        let mut ctx = JitContext::new(insns.len());
        ctx.emit_prologue();
        let mut pc: usize = 0;
        while pc < insns.len()
            invariant
                pc <= insns@.len(),
                ctx.offsets@.len() == insns@.len() + 1,
                ctx.pending_jumps@ == Seq::<(usize, usize, i16)>::empty(),
                ctx.code@ == prologue_bytes() + insns_code(insns@.subrange(0, pc as int)),
            decreases insns@.len() - pc,
        {
            let at = ctx.pos();
            ctx.offsets.set(pc, at);
            match Self::compile_insn(&mut ctx, &insns[pc], pc) {
                Ok(()) => {},
                Err(e) => {
                    return Err(e);
                },
            }
            pc = pc + 1;
            assert(insns@.subrange(0, pc as int).drop_last() =~= insns@.subrange(0, pc - 1));
        }
        assert(insns@.subrange(0, insns@.len() as int) =~= insns@);
        let end = ctx.pos();
        ctx.offsets.set(insns.len(), end);
        ctx.fixup_jumps();
        Ok(CompiledProgram { code: ctx.code })
    }

    /// Compile a single instruction
    fn compile_insn(ctx: &mut JitContext, insn: &BpfInsn, pc: usize) -> (r: Result<(), BpfError>)
        ensures
            r is Ok,
            final(ctx).code@ == old(ctx).code@ + insn_code(*insn),
            final(ctx).offsets == old(ctx).offsets,
            final(ctx).pending_jumps == old(ctx).pending_jumps,
    {
        proof {
            lemma_fixed_encodings();
        }
        let class = insn.code & 0x07;
        let dst = insn.dst();
        let src = insn.src();
        if class == 0x07 {
            let op = insn.code & 0xF0;
            if (insn.code & 0x08) != 0 {
                if op == BPF_MOV {
                    ctx.emit_mov64_reg(dst, src);
                } else {
                    ctx.emit_alu64_reg(op, dst, src);
                }
            } else {
                if op == BPF_MOV {
                    ctx.emit_mov64_imm(dst, insn.imm as i64);
                } else {
                    ctx.emit_alu64_imm(op, dst, insn.imm);
                }
            }
        } else if class == 0x05 {
            let op = insn.code & 0xF0;
            if op == BPF_EXIT {
                ctx.emit_epilogue();
            } else if op == BPF_CALL {
                // xor rax, rax
                ctx.emit_rex_w(RAX, RAX);
                ctx.emit(0x31);
                ctx.emit_modrm(0b11, RAX, RAX);
                assert(ctx.code@ =~= old(ctx).code@ + call_bytes());
            } else {
                assert(ctx.code@ =~= old(ctx).code@ + Seq::<u8>::empty());
            }
        } else {
            assert(ctx.code@ =~= old(ctx).code@ + Seq::<u8>::empty());
        }
        Ok(())
    }
}

/// Compiled BPF program
pub struct CompiledProgram {
    /// Native machine code
    pub code: Vec<u8>,
}

impl CompiledProgram {
    /// Get code size
    pub fn size(&self) -> (r: usize)
        ensures
            r == self.code@.len(),
    {
        self.code.len()
    }

    /// Execute the compiled program. Placing code in executable memory is
    /// not done yet, so every run answers 0.
    pub fn execute(&self, ctx: u64) -> (r: u64)
        ensures
            r == 0,
    {
        0
    }
}

} // verus!
