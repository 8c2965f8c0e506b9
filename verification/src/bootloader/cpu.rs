//! CPU features from the CPUID leaves the loader reads, and the time stamp
//! counter arithmetic of the boot delay.
use vstd::prelude::*;
use crate::wire::le32;

verus! {

/// CPU features detected at boot
#[derive(Debug, Clone, Copy)]
pub struct CpuFeatures {
    /// CPU vendor string
    pub vendor: [u8; 12],
    /// SSE support
    pub has_sse: bool,
    /// SSE2 support
    pub has_sse2: bool,
    /// SSE3 support
    pub has_sse3: bool,
    /// SSSE3 support
    pub has_ssse3: bool,
    /// SSE4.1 support
    pub has_sse41: bool,
    /// SSE4.2 support
    pub has_sse42: bool,
    /// AVX support
    pub has_avx: bool,
    /// AVX2 support
    pub has_avx2: bool,
    /// x2APIC support
    pub has_x2apic: bool,
    /// Long mode (64-bit) support
    pub has_long_mode: bool,
    /// NX (No-Execute) bit support
    pub has_nx: bool,
    /// 1GB pages support
    pub has_1gb_pages: bool,
}

impl Default for CpuFeatures {
    fn default() -> (r: Self)
        ensures
            r.vendor@ == Seq::new(12, |i: int| 0u8),
            !r.has_sse && !r.has_sse2 && !r.has_sse3 && !r.has_ssse3 && !r.has_sse41 && !r.has_sse42,
            !r.has_avx && !r.has_avx2 && !r.has_x2apic && !r.has_long_mode && !r.has_nx && !r.has_1gb_pages,
    {
        let vendor: [u8; 12] = [0, 0, 0, 0, 0, 0, 0, 0, 0, 0, 0, 0];
        assert(vendor@ =~= Seq::new(12, |i: int| 0u8));
        CpuFeatures {
            vendor,
            has_sse: false,
            has_sse2: false,
            has_sse3: false,
            has_ssse3: false,
            has_sse41: false,
            has_sse42: false,
            has_avx: false,
            has_avx2: false,
            has_x2apic: false,
            has_long_mode: false,
            has_nx: false,
            has_1gb_pages: false,
        }
    }
}

/// The registers of the CPUID leaves the loader reads: leaf 0 (the vendor
/// string in EBX, EDX, ECX), leaf 1 (feature flags in ECX and EDX), leaf 7
/// subleaf 0 (EBX) and leaf 0x80000001 (EDX).
#[derive(Debug, Clone, Copy)]
pub struct CpuidLeaves {
    pub leaf0_ebx: u32,
    pub leaf0_ecx: u32,
    pub leaf0_edx: u32,
    pub leaf1_ecx: u32,
    pub leaf1_edx: u32,
    pub leaf7_ebx: u32,
    pub ext1_edx: u32,
}

/// Whether bit `n` of `reg` is set.
pub open spec fn has_bit(reg: u32, n: u32) -> bool {
    reg & (1u32 << n) != 0
}

fn bit(reg: u32, n: u32) -> (r: bool)
    requires
        n < 32,
    ensures
        r == has_bit(reg, n),
{
    reg & (1u32 << n) != 0
}

/// Detect CPU features from the CPUID registers.
pub fn detect_cpu_features(regs: &CpuidLeaves) -> (f: CpuFeatures)
    ensures
        f.vendor@ == le32(regs.leaf0_ebx) + le32(regs.leaf0_edx) + le32(regs.leaf0_ecx),
        f.has_sse == has_bit(regs.leaf1_edx, 25),
        f.has_sse2 == has_bit(regs.leaf1_edx, 26),
        f.has_sse3 == has_bit(regs.leaf1_ecx, 0),
        f.has_ssse3 == has_bit(regs.leaf1_ecx, 9),
        f.has_sse41 == has_bit(regs.leaf1_ecx, 19),
        f.has_sse42 == has_bit(regs.leaf1_ecx, 20),
        f.has_avx == has_bit(regs.leaf1_ecx, 28),
        f.has_x2apic == has_bit(regs.leaf1_ecx, 21),
        f.has_avx2 == has_bit(regs.leaf7_ebx, 5),
        f.has_long_mode == has_bit(regs.ext1_edx, 29),
        f.has_nx == has_bit(regs.ext1_edx, 20),
        f.has_1gb_pages == has_bit(regs.ext1_edx, 26),
{
    let mut features = CpuFeatures::default();
    let mut bytes: Vec<u8> = Vec::new();
    crate::wire::push_u32_le(&mut bytes, regs.leaf0_ebx);
    crate::wire::push_u32_le(&mut bytes, regs.leaf0_edx);
    crate::wire::push_u32_le(&mut bytes, regs.leaf0_ecx);
    let mut i: usize = 0;
    while i < 12
        invariant
            i <= 12,
            bytes@ == le32(regs.leaf0_ebx) + le32(regs.leaf0_edx) + le32(regs.leaf0_ecx),
            features.vendor@.len() == 12,
            forall|k: int| 0 <= k < i ==> #[trigger] features.vendor@[k] == bytes@[k],
        decreases 12 - i,
    {
        features.vendor.set(i, bytes[i]);
        i = i + 1;
    }
    assert(features.vendor@ =~= bytes@);
    features.has_sse = bit(regs.leaf1_edx, 25);
    features.has_sse2 = bit(regs.leaf1_edx, 26);
    features.has_sse3 = bit(regs.leaf1_ecx, 0);
    features.has_ssse3 = bit(regs.leaf1_ecx, 9);
    features.has_sse41 = bit(regs.leaf1_ecx, 19);
    features.has_sse42 = bit(regs.leaf1_ecx, 20);
    features.has_avx = bit(regs.leaf1_ecx, 28);
    features.has_x2apic = bit(regs.leaf1_ecx, 21);
    features.has_avx2 = bit(regs.leaf7_ebx, 5);
    features.has_long_mode = bit(regs.ext1_edx, 29);
    features.has_nx = bit(regs.ext1_edx, 20);
    features.has_1gb_pages = bit(regs.ext1_edx, 26);
    features
}

/// The time stamp counter value from the halves that `rdtsc` returns.
pub fn tsc_value(lo: u32, hi: u32) -> (r: u64)
    ensures
        r == hi * 0x1_0000_0000 + lo,
{
    let r = ((hi as u64) << 32u64) | (lo as u64);
    assert(r == hi * 0x1_0000_0000 + lo) by (bit_vector)
        requires
            r == ((hi as u64) << 32u64) | (lo as u64),
    ;
    r
}

/// Counter cycles to wait for `ms` milliseconds, assuming about 1 GHz.
pub fn delay_cycles(ms: u32) -> (r: u64)
    ensures
        r == ms * 1_000_000,
{
    (ms as u64) * 1_000_000
}

/// Whether a delay of `cycles` that started at counter value `start` is
/// over at counter value `now`.
pub fn delay_elapsed(start: u64, now: u64, cycles: u64) -> (r: bool)
    requires
        now >= start,
    ensures
        r == (now - start >= cycles),
{
    now - start >= cycles
}

} // verus!
