//! BPF to x86-64 register mapping.
//!
//! R0 -> RAX, R1 -> RDI, R2 -> RSI, R3 -> RDX, R4 -> RCX, R5 -> R8,
//! R6 -> RBX, R7 -> R13, R8 -> R14, R9 -> R15, R10 -> RBP.
use vstd::prelude::*;

verus! {

pub const RAX: u8 = 0;
pub const RCX: u8 = 1;
pub const RDX: u8 = 2;
pub const RBX: u8 = 3;
pub const RSP: u8 = 4;
pub const RBP: u8 = 5;
pub const RSI: u8 = 6;
pub const RDI: u8 = 7;
pub const R8: u8 = 8;
pub const R9: u8 = 9;
pub const R10: u8 = 10;
pub const R11: u8 = 11;
pub const R12: u8 = 12;
pub const R13: u8 = 13;
pub const R14: u8 = 14;
pub const R15: u8 = 15;

/// The x86-64 register that holds a BPF register (RAX for an unknown one).
pub open spec fn x86_reg_of(bpf_reg: u8) -> u8 {
    if bpf_reg == 0 { RAX }
    else if bpf_reg == 1 { RDI }
    else if bpf_reg == 2 { RSI }
    else if bpf_reg == 3 { RDX }
    else if bpf_reg == 4 { RCX }
    else if bpf_reg == 5 { R8 }
    else if bpf_reg == 6 { RBX }
    else if bpf_reg == 7 { R13 }
    else if bpf_reg == 8 { R14 }
    else if bpf_reg == 9 { R15 }
    else if bpf_reg == 10 { RBP }
    else { RAX }
}

/// Map BPF register to x86-64 register
pub fn bpf_to_x86(bpf_reg: u8) -> (r: u8)
    ensures
        r == x86_reg_of(bpf_reg),
        r < 16,
{
    match bpf_reg {
        0 => RAX,
        1 => RDI,
        2 => RSI,
        3 => RDX,
        4 => RCX,
        5 => R8,
        6 => RBX,
        7 => R13,
        8 => R14,
        9 => R15,
        10 => RBP,
        _ => RAX,
    }
}

/// Check if register needs REX prefix
pub fn needs_rex_r(reg: u8) -> (r: bool)
    ensures
        r == (reg >= 8),
{
    reg >= 8
}

/// Get register encoding (lower 3 bits)
pub fn reg_code(reg: u8) -> (r: u8)
    ensures
        r == reg & 7,
        r == reg % 8,
{
    assert(reg & 7 == reg % 8) by (bit_vector);
    reg & 0x07
}

} // verus!
