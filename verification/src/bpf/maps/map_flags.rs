//! Flags a BPF map can be created with.
use vstd::prelude::*;

verus! {

/// No pre-allocation
pub const BPF_F_NO_PREALLOC: u32 = 0x1;
/// No common LRU
pub const BPF_F_NO_COMMON_LRU: u32 = 0x2;
/// NUMA node aware
pub const BPF_F_NUMA_NODE: u32 = 0x4;
/// Read-only (userspace)
pub const BPF_F_RDONLY: u32 = 0x8;
/// Write-only (userspace)
pub const BPF_F_WRONLY: u32 = 0x10;
/// Stack build ID
pub const BPF_F_STACK_BUILD_ID: u32 = 0x20;
/// Zero seed
pub const BPF_F_ZERO_SEED: u32 = 0x40;
/// Read-only (program)
pub const BPF_F_RDONLY_PROG: u32 = 0x80;
/// Write-only (program)
pub const BPF_F_WRONLY_PROG: u32 = 0x100;
/// Clone
pub const BPF_F_CLONE: u32 = 0x200;
/// Memory-mapped
pub const BPF_F_MMAPABLE: u32 = 0x400;
/// Preserve elem on fail
pub const BPF_F_PRESERVE_ELEMS: u32 = 0x800;
/// Inner map
pub const BPF_F_INNER_MAP: u32 = 0x1000;

} // verus!
