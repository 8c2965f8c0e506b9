//! BPF register numbers.
use vstd::prelude::*;

verus! {

/// Return value (R0)
pub const BPF_REG_0: u8 = 0;
/// Argument 1 / scratch (R1)
pub const BPF_REG_1: u8 = 1;
/// Argument 2 / scratch (R2)
pub const BPF_REG_2: u8 = 2;
/// Argument 3 / scratch (R3)
pub const BPF_REG_3: u8 = 3;
/// Argument 4 / scratch (R4)
pub const BPF_REG_4: u8 = 4;
/// Argument 5 / scratch (R5)
pub const BPF_REG_5: u8 = 5;
/// Callee saved (R6)
pub const BPF_REG_6: u8 = 6;
/// Callee saved (R7)
pub const BPF_REG_7: u8 = 7;
/// Callee saved (R8)
pub const BPF_REG_8: u8 = 8;
/// Callee saved (R9)
pub const BPF_REG_9: u8 = 9;
/// Frame pointer (R10) - read only
pub const BPF_REG_10: u8 = 10;
/// Alias for frame pointer
pub const BPF_REG_FP: u8 = 10;

} // verus!
