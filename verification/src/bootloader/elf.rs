//! Loading the kernel: checking its ELF header, laying out its loadable
//! segments in one physically contiguous image, and filling that image.
use vstd::prelude::*;
use crate::wire::le_value;
use super::{BootError, LoadedKernel};

verus! {

/// Program header type of a loadable segment.
pub const PT_LOAD: u32 = 1;

/// ELF class of 64-bit objects.
pub const ELFCLASS64: u8 = 2;

/// ELF machine number of x86-64.
pub const EM_X86_64: u16 = 62;

/// Size of an ELF64 program header in bytes.
pub const PHDR_SIZE: usize = 56;

// =============================================================================
// THE FILE
// =============================================================================

/// The `n`-byte little-endian number at byte `at` of `s`.
pub open spec fn rd(s: Seq<u8>, at: int, n: int) -> nat {
    le_value(s.subrange(at, at + n))
}

/// `e_machine`
pub open spec fn e_machine(s: Seq<u8>) -> nat {
    rd(s, 18, 2)
}

/// `e_entry`
pub open spec fn e_entry(s: Seq<u8>) -> nat {
    rd(s, 24, 8)
}

/// `e_phoff`
pub open spec fn e_phoff(s: Seq<u8>) -> nat {
    rd(s, 32, 8)
}

/// `e_phentsize`
pub open spec fn e_phentsize(s: Seq<u8>) -> nat {
    rd(s, 54, 2)
}

/// `e_phnum`
pub open spec fn e_phnum(s: Seq<u8>) -> nat {
    rd(s, 56, 2)
}

/// Offset of program header `i`.
pub open spec fn ph_off(s: Seq<u8>, i: int) -> int {
    e_phoff(s) + i * e_phentsize(s)
}

/// `p_type` of program header `i`.
pub open spec fn ph_type(s: Seq<u8>, i: int) -> nat {
    rd(s, ph_off(s, i), 4)
}

/// `p_offset` of program header `i`.
pub open spec fn ph_offset(s: Seq<u8>, i: int) -> nat {
    rd(s, ph_off(s, i) + 8, 8)
}

/// `p_paddr` of program header `i`.
pub open spec fn ph_paddr(s: Seq<u8>, i: int) -> nat {
    rd(s, ph_off(s, i) + 24, 8)
}

/// `p_filesz` of program header `i`.
pub open spec fn ph_filesz(s: Seq<u8>, i: int) -> nat {
    rd(s, ph_off(s, i) + 32, 8)
}

/// `p_memsz` of program header `i`.
pub open spec fn ph_memsz(s: Seq<u8>, i: int) -> nat {
    rd(s, ph_off(s, i) + 40, 8)
}

/// Whether program header `i` describes a loadable segment.
pub open spec fn is_load(s: Seq<u8>, i: int) -> bool {
    ph_type(s, i) == PT_LOAD
}

/// What is wrong with the ELF header, if anything: a file too short for a
/// header or without the ELF magic is malformed; one that is not 64-bit or
/// not for x86-64 is unsupported.
pub open spec fn header_error(s: Seq<u8>) -> Option<BootError> {
    if s.len() < 64 || s[0] != 0x7F || s[1] != 0x45 || s[2] != 0x4C || s[3] != 0x46 {
        Some(BootError::InvalidParameter)
    } else if s[4] != ELFCLASS64 {
        Some(BootError::Unsupported)
    } else if e_machine(s) != EM_X86_64 {
        Some(BootError::Unsupported)
    } else {
        None
    }
}

/// Whether all program headers lie inside the file (the last one lies
/// furthest in).
pub open spec fn phdrs_in_file(s: Seq<u8>) -> bool {
    e_phnum(s) == 0 || ph_off(s, e_phnum(s) - 1) + 56 <= s.len()
}

/// Whether one of the first `n` headers is loadable.
pub open spec fn any_load(s: Seq<u8>, n: int) -> bool
    decreases n,
{
    if n <= 0 { false } else { is_load(s, n - 1) || any_load(s, n - 1) }
}

/// Whether the end of one of the first `n` loadable segments passes 2^64.
pub open spec fn end_overflows(s: Seq<u8>, n: int) -> bool
    decreases n,
{
    if n <= 0 {
        false
    } else {
        (is_load(s, n - 1) && ph_paddr(s, n - 1) + ph_memsz(s, n - 1) > u64::MAX) || end_overflows(s, n - 1)
    }
}

/// The lowest physical address of the first `n` loadable segments
/// (`u64::MAX` if there is none).
pub open spec fn min_paddr(s: Seq<u8>, n: int) -> int
    decreases n,
{
    if n <= 0 {
        u64::MAX as int
    } else {
        let m = min_paddr(s, n - 1);
        if is_load(s, n - 1) && ph_paddr(s, n - 1) < m { ph_paddr(s, n - 1) as int } else { m }
    }
}

/// The highest physical end address of the first `n` loadable segments
/// (zero if there is none).
pub open spec fn max_end(s: Seq<u8>, n: int) -> int
    decreases n,
{
    if n <= 0 {
        0
    } else {
        let m = max_end(s, n - 1);
        let e = (ph_paddr(s, n - 1) + ph_memsz(s, n - 1)) as int;
        if is_load(s, n - 1) && e > m { e } else { m }
    }
}

/// Bytes the loaded image spans.
pub open spec fn image_size(s: Seq<u8>) -> int {
    max_end(s, e_phnum(s) as int) - min_paddr(s, e_phnum(s) as int)
}

/// Whether the arithmetic of loading overflows, for a file whose header is
/// accepted: a program header offset beyond the address space; or, with
/// every program header inside the file, a segment end beyond 2^64, no
/// loadable segment at all, an image too large to round up to pages, or an
/// entry point below the image.
pub open spec fn load_overflows(s: Seq<u8>) -> bool {
    let n = e_phnum(s) as int;
    header_error(s) is None && ((n > 0 && ph_off(s, n - 1) > usize::MAX) || (phdrs_in_file(s) && (end_overflows(s, n)
        || !any_load(s, n) || (image_size(s) as usize) + 4096 > usize::MAX || e_entry(s) < min_paddr(s, n))))
}

/// One copy from the file into the image: `len` bytes from file offset
/// `src` to image offset `dest`.
#[derive(Debug, Clone, Copy, PartialEq, Eq, Structural)]
pub struct SegmentCopy {
    pub dest: u64,
    pub src: u64,
    pub len: u64,
}

/// The copies of the first `n` loadable segments with file contents, each
/// placed at its physical address less `base`.
pub open spec fn copies(s: Seq<u8>, n: int, base: int) -> Seq<SegmentCopy>
    decreases n,
{
    if n <= 0 {
        Seq::empty()
    } else if is_load(s, n - 1) && ph_filesz(s, n - 1) > 0 {
        copies(s, n - 1, base).push(
            SegmentCopy {
                dest: (ph_paddr(s, n - 1) - base) as u64,
                src: ph_offset(s, n - 1) as u64,
                len: ph_filesz(s, n - 1) as u64,
            },
        )
    } else {
        copies(s, n - 1, base)
    }
}

/// Whether every copy reads inside the file and writes inside an image of
/// `cap` bytes.
pub open spec fn copies_fit(segs: Seq<SegmentCopy>, file_len: int, cap: int) -> bool {
    forall|k: int|
        #![trigger segs[k]]
        0 <= k < segs.len() ==> segs[k].src + segs[k].len <= file_len && segs[k].dest + segs[k].len <= cap
}

/// Where the loadable segments go.
pub struct KernelLayout {
    /// Lowest physical address of the segments
    pub min_addr: u64,
    /// Bytes from the lowest address to the highest end
    pub size: u64,
    /// Pages the image takes
    pub pages: usize,
    /// Entry point, from the start of the image
    pub entry_offset: u64,
    /// What to copy from the file
    pub segments: Vec<SegmentCopy>,
}

/// A layout, with its copies as a sequence.
pub struct KernelLayoutView {
    pub min_addr: u64,
    pub size: u64,
    pub pages: usize,
    pub entry_offset: u64,
    pub segments: Seq<SegmentCopy>,
}

impl View for KernelLayout {
    type V = KernelLayoutView;

    open spec fn view(&self) -> KernelLayoutView {
        KernelLayoutView {
            min_addr: self.min_addr,
            size: self.size,
            pages: self.pages,
            entry_offset: self.entry_offset,
            segments: self.segments@,
        }
    }
}

/// The layout of the kernel in `s`, or why it cannot be loaded: a bad
/// header, a program header outside the file, or a segment whose contents
/// lie outside the file or outside the image are refused.
pub open spec fn kernel_layout_of(s: Seq<u8>) -> Result<KernelLayoutView, BootError> {
    match header_error(s) {
        Some(e) => Err(e),
        None => if !phdrs_in_file(s) {
            Err(BootError::InvalidParameter)
        } else {
            let n = e_phnum(s) as int;
            let min = min_paddr(s, n);
            let size = image_size(s);
            let pages = (((size as usize) + 4095) / 4096) as usize;
            let segs = copies(s, n, min);
            if !copies_fit(segs, s.len() as int, pages * 4096) {
                Err(BootError::InvalidParameter)
            } else {
                Ok(
                    KernelLayoutView {
                        min_addr: min as u64,
                        size: size as u64,
                        pages,
                        entry_offset: (e_entry(s) - min) as u64,
                        segments: segs,
                    },
                )
            }
        },
    }
}

// =============================================================================
// THE IMAGE
// =============================================================================

/// The image after the copies `segs`, in order, into `img`.
pub open spec fn copied(img: Seq<u8>, file: Seq<u8>, segs: Seq<SegmentCopy>) -> Seq<u8>
    decreases segs.len(),
{
    if segs.len() == 0 {
        img
    } else {
        let c = segs.last();
        let prev = copied(img, file, segs.drop_last());
        Seq::new(prev.len(), |k: int| if c.dest <= k < c.dest + c.len { file[c.src + (k - c.dest)] } else { prev[k] })
    }
}

/// The loaded kernel image: its pages zeroed, then the segments copied in.
pub open spec fn kernel_image(file: Seq<u8>, layout: KernelLayoutView) -> Seq<u8> {
    copied(Seq::new((layout.pages * 4096) as nat, |k: int| 0u8), file, layout.segments)
}

proof fn lemma_ph_off_mono(s: Seq<u8>, i: int, j: int)
    requires
        0 <= i <= j,
    ensures
        e_phoff(s) <= ph_off(s, i) <= ph_off(s, j),
{
    let e = e_phentsize(s) as int;
    assert(0 <= i * e <= j * e) by (nonlinear_arith)
        requires
            0 <= i <= j,
            e >= 0,
    ;
}

proof fn lemma_copies_prefix(s: Seq<u8>, j: int, n: int, base: int)
    requires
        0 <= j <= n,
    ensures
        copies(s, j, base).len() <= copies(s, n, base).len(),
        forall|k: int| 0 <= k < copies(s, j, base).len() ==> #[trigger] copies(s, n, base)[k] == copies(s, j, base)[k],
    decreases n - j,
{
    if j < n {
        lemma_copies_prefix(s, j, n - 1, base);
    }
}

proof fn lemma_end_overflows_mono(s: Seq<u8>, i: int, n: int)
    requires
        0 <= i <= n,
        end_overflows(s, i),
    ensures
        end_overflows(s, n),
    decreases n - i,
{
    if i < n {
        lemma_end_overflows_mono(s, i, n - 1);
    }
}

/// Every loadable segment lies between the lowest address and the highest
/// end, and the lowest address is below 2^64.
proof fn lemma_min_max(s: Seq<u8>, n: int)
    requires
        n >= 0,
    ensures
        min_paddr(s, n) <= u64::MAX,
        0 <= max_end(s, n),
        forall|j: int| 0 <= j < n && #[trigger] is_load(s, j) ==> min_paddr(s, n) <= ph_paddr(s, j) && ph_paddr(s, j) + ph_memsz(s, j) <= max_end(s, n),
        any_load(s, n) ==> min_paddr(s, n) <= max_end(s, n),
        !end_overflows(s, n) ==> max_end(s, n) <= u64::MAX,
    decreases n,
{
    if n > 0 {
        lemma_min_max(s, n - 1);
        if any_load(s, n) && !is_load(s, n - 1) {
            assert(any_load(s, n - 1));
        }
    }
}

/// One of the first `n` loadable segments lies at the lowest address.
proof fn lemma_min_attained(s: Seq<u8>, n: int)
    requires
        n >= 0,
        any_load(s, n),
        forall|j: int| 0 <= j < n ==> #[trigger] ph_paddr(s, j) <= u64::MAX,
    ensures
        exists|j: int| 0 <= j < n && #[trigger] is_load(s, j) && ph_paddr(s, j) == min_paddr(s, n),
    decreases n,
{
    lemma_min_max(s, n);
    if is_load(s, n - 1) && ph_paddr(s, n - 1) < min_paddr(s, n - 1) {
        assert(is_load(s, n - 1) && ph_paddr(s, n - 1) == min_paddr(s, n));
    } else if any_load(s, n - 1) {
        lemma_min_attained(s, n - 1);
    } else {
        lemma_min_max(s, n - 1);
        assert(min_paddr(s, n - 1) == u64::MAX) by {
            lemma_no_load_min(s, n - 1);
        }
        assert(ph_paddr(s, n - 1) <= u64::MAX);
        assert(is_load(s, n - 1) && ph_paddr(s, n - 1) == min_paddr(s, n));
    }
}

/// One of the first `n` loadable segments ends at the highest end.
proof fn lemma_max_attained(s: Seq<u8>, n: int)
    requires
        n >= 0,
        any_load(s, n),
    ensures
        exists|j: int| 0 <= j < n && #[trigger] is_load(s, j) && ph_paddr(s, j) + ph_memsz(s, j) == max_end(s, n),
    decreases n,
{
    lemma_min_max(s, n);
    let e = (ph_paddr(s, n - 1) + ph_memsz(s, n - 1)) as int;
    if is_load(s, n - 1) && e > max_end(s, n - 1) {
        assert(is_load(s, n - 1) && ph_paddr(s, n - 1) + ph_memsz(s, n - 1) == max_end(s, n));
    } else if any_load(s, n - 1) {
        lemma_max_attained(s, n - 1);
    } else {
        lemma_no_load_max(s, n - 1);
        assert(is_load(s, n - 1) && ph_paddr(s, n - 1) + ph_memsz(s, n - 1) == max_end(s, n));
    }
}

/// Without a loadable segment the highest end is zero.
proof fn lemma_no_load_max(s: Seq<u8>, n: int)
    requires
        n >= 0,
        !any_load(s, n),
    ensures
        max_end(s, n) == 0,
    decreases n,
{
    if n > 0 {
        lemma_no_load_max(s, n - 1);
    }
}

/// Without a loadable segment the lowest address is `u64::MAX`.
proof fn lemma_no_load_min(s: Seq<u8>, n: int)
    requires
        n >= 0,
        !any_load(s, n),
    ensures
        min_paddr(s, n) == u64::MAX,
    decreases n,
{
    if n > 0 {
        lemma_no_load_min(s, n - 1);
    }
}

/// Where the kernel is entered: a layout places the lowest physical address
/// of the loadable segments at the start of the image, so the entry offset
/// is the header's entry point (the eight bytes at offset 24, little
/// endian) less that address, and an entry point inside the segments'
/// span lies inside the image.
pub proof fn lemma_entry_offset(s: Seq<u8>)
    requires
        !load_overflows(s),
        kernel_layout_of(s) is Ok,
    ensures
        ({
            let l = kernel_layout_of(s)->Ok_0;
            let n = e_phnum(s) as int;
            &&& l.min_addr + l.entry_offset == le_value(s.subrange(24, 32))
            &&& forall|i: int| 0 <= i < n && #[trigger] ph_type(s, i) == PT_LOAD ==> l.min_addr <= ph_paddr(s, i)
            &&& exists|i: int| 0 <= i < n && #[trigger] ph_type(s, i) == PT_LOAD && l.min_addr == ph_paddr(s, i)
            &&& le_value(s.subrange(24, 32)) < l.min_addr + l.size ==> l.entry_offset < l.size
            &&& forall|i: int| 0 <= i < n && #[trigger] ph_type(s, i) == PT_LOAD
                ==> ph_paddr(s, i) + ph_memsz(s, i) <= l.min_addr + l.size
            &&& exists|i: int| 0 <= i < n && #[trigger] ph_type(s, i) == PT_LOAD
                && ph_paddr(s, i) + ph_memsz(s, i) == l.min_addr + l.size
            &&& l.size + 4096 <= usize::MAX ==> l.size <= l.pages * 4096 < l.size + 4096
        }),
{
    let n = e_phnum(s) as int;
    lemma_min_max(s, n);
    assert forall|j: int| 0 <= j < n implies #[trigger] ph_paddr(s, j) <= u64::MAX by {
        lemma_ph_off_mono(s, j, n - 1);
        let o = ph_off(s, j) + 24;
        assert(0 <= o && o + 8 <= s.len());
        crate::wire::lemma_le_value_bound(s.subrange(o, o + 8));
        reveal_with_fuel(crate::wire::pow256n, 9);
    }
    lemma_min_attained(s, n);
    let l = kernel_layout_of(s)->Ok_0;
    assert(e_entry(s) < 0x1_0000_0000_0000_0000) by {
        crate::wire::lemma_le_value_bound(s.subrange(24, 32));
        reveal_with_fuel(crate::wire::pow256n, 9);
    }
    assert forall|i: int| 0 <= i < n && #[trigger] ph_type(s, i) == PT_LOAD implies l.min_addr <= ph_paddr(s, i) by {
        assert(is_load(s, i));
    }
    let j = choose|j: int| 0 <= j < n && #[trigger] is_load(s, j) && ph_paddr(s, j) == min_paddr(s, n);
    assert(ph_type(s, j) == PT_LOAD);
    lemma_max_attained(s, n);
    let k = choose|k: int| 0 <= k < n && #[trigger] is_load(s, k) && ph_paddr(s, k) + ph_memsz(s, k) == max_end(s, n);
    assert(ph_type(s, k) == PT_LOAD);
    assert forall|i: int| 0 <= i < n && #[trigger] ph_type(s, i) == PT_LOAD
        implies ph_paddr(s, i) + ph_memsz(s, i) <= l.min_addr + l.size by {
        assert(is_load(s, i));
    }
    if l.size + 4096 <= usize::MAX {
        let z = image_size(s);
        assert(l.size == z);
        assert(z as usize == z);
        let p = (z + 4095) / 4096;
        assert(l.pages == p);
        assert(z <= p * 4096 < z + 4096) by (nonlinear_arith)
            requires z >= 0, p == (z + 4095) / 4096;
    }
}

/// What is wrong with the ELF header, if anything.
fn header_error_exec(file: &[u8]) -> (r: Option<BootError>)
    ensures
        r == header_error(file@),
{
    if file.len() < 64 || file[0] != 0x7F || file[1] != 0x45 || file[2] != 0x4C || file[3] != 0x46 {
        return Some(BootError::InvalidParameter);
    }
    if file[4] != ELFCLASS64 {
        return Some(BootError::Unsupported);
    }
    if crate::wire::read_le(file, 18, 2) != EM_X86_64 as u64 {
        return Some(BootError::Unsupported);
    }
    None
}

/// Fields of a program header inside the file.
struct PhdrFields {
    ptype: u64,
    offset: u64,
    paddr: u64,
    filesz: u64,
    memsz: u64,
}

fn read_phdr(file: &[u8], i: u64) -> (r: PhdrFields)
    requires
        header_error(file@) is None,
        phdrs_in_file(file@),
        i < e_phnum(file@),
    ensures
        r.ptype == ph_type(file@, i as int),
        r.offset == ph_offset(file@, i as int),
        r.paddr == ph_paddr(file@, i as int),
        r.filesz == ph_filesz(file@, i as int),
        r.memsz == ph_memsz(file@, i as int),
{
    let phoff = crate::wire::read_le(file, 32, 8);
    let phentsize = crate::wire::read_le(file, 54, 2);
    proof {
        lemma_ph_off_mono(file@, i as int, e_phnum(file@) - 1);
        assert(file@.len() == file.len());
        assert(ph_off(file@, i as int) + 56 <= file@.len());
        assert(i * phentsize <= ph_off(file@, i as int) - phoff);
    }
    let off = (phoff + i * phentsize) as usize;
    PhdrFields {
        ptype: crate::wire::read_le(file, off, 4),
        offset: crate::wire::read_le(file, off + 8, 8),
        paddr: crate::wire::read_le(file, off + 24, 8),
        filesz: crate::wire::read_le(file, off + 32, 8),
        memsz: crate::wire::read_le(file, off + 40, 8),
    }
}

/// Whether every program header lies inside the file, for a file whose
/// header is accepted and whose header offsets fit the address space.
fn phdrs_in_file_exec(file: &[u8]) -> (r: bool)
    requires
        header_error(file@) is None,
        e_phnum(file@) > 0 ==> ph_off(file@, e_phnum(file@) - 1) <= usize::MAX,
    ensures
        r == phdrs_in_file(file@),
{
    let n = crate::wire::read_le(file, 56, 2);
    if n == 0 {
        return true;
    }
    let phoff = crate::wire::read_le(file, 32, 8);
    let phentsize = crate::wire::read_le(file, 54, 2);
    proof {
        lemma_ph_off_mono(file@, n - 1, n - 1);
        assert((n - 1) * phentsize <= ph_off(file@, n - 1) - phoff);
    }
    let last = phoff + (n - 1) * phentsize;
    file.len() >= 56 && last <= (file.len() - 56) as u64
}

/// Whether loading the kernel in `file` would overflow (see
/// [`load_overflows`]); the loader stops there.
pub fn load_would_overflow(file: &[u8]) -> (r: bool)
    ensures
        r == load_overflows(file@),
{
    if header_error_exec(file).is_some() {
        return false;
    }
    let n = crate::wire::read_le(file, 56, 2);
    let phoff = crate::wire::read_le(file, 32, 8);
    let phentsize = crate::wire::read_le(file, 54, 2);
    if n > 0 {
        proof {
            assert((n - 1) * phentsize < 0x1_0000_0000) by (nonlinear_arith)
                requires
                    1 <= n < 0x1_0000,
                    phentsize < 0x1_0000,
            ;
        }
        let last: u128 = phoff as u128 + ((n - 1) as u128) * (phentsize as u128);
        if last > usize::MAX as u128 {
            return true;
        }
    }
    if !phdrs_in_file_exec(file) {
        return false;
    }
    let mut min_addr: u64 = u64::MAX;
    let mut max_addr: u64 = 0;
    let mut found = false;
    let mut i: u64 = 0;
    while i < n
        invariant
            i <= n,
            n == e_phnum(file@),
            header_error(file@) is None,
            phdrs_in_file(file@),
            !end_overflows(file@, i as int),
            min_addr == min_paddr(file@, i as int),
            max_addr == max_end(file@, i as int),
            found == any_load(file@, i as int),
        decreases n - i,
    {
        let ph = read_phdr(file, i);
        proof {
            lemma_min_max(file@, i as int);
        }
        if ph.ptype == PT_LOAD as u64 {
            if ph.memsz > u64::MAX - ph.paddr {
                proof {
                    lemma_end_overflows_mono(file@, i + 1, n as int);
                }
                return true;
            }
            let seg_end = ph.paddr + ph.memsz;
            if ph.paddr < min_addr {
                min_addr = ph.paddr;
            }
            if seg_end > max_addr {
                max_addr = seg_end;
            }
            found = true;
        }
        i = i + 1;
    }
    if !found {
        return true;
    }
    proof {
        lemma_min_max(file@, n as int);
    }
    let size = (max_addr - min_addr) as usize;
    if size > usize::MAX - 4096 {
        return true;
    }
    let entry = crate::wire::read_le(file, 24, 8);
    entry < min_addr
}

/// Lay out the kernel in `file`: check its header, find where its loadable
/// segments go, and list what to copy; see [`kernel_layout_of`] for what is
/// refused.
pub fn plan_kernel_load(file: &[u8]) -> (r: Result<KernelLayout, BootError>)
    requires
        !load_overflows(file@),
    ensures
        match kernel_layout_of(file@) {
            Ok(l) => r matches Ok(x) && x@ == l,
            Err(e) => r matches Err(e2) && e2 == e,
        },
{
    match header_error_exec(file) {
        Some(e) => {
            return Err(e);
        },
        None => {},
    }
    if !phdrs_in_file_exec(file) {
        return Err(BootError::InvalidParameter);
    }
    let n = crate::wire::read_le(file, 56, 2);
    let mut min_addr: u64 = u64::MAX;
    let mut max_addr: u64 = 0;
    let mut i: u64 = 0;
    while i < n
        invariant
            i <= n,
            n == e_phnum(file@),
            header_error(file@) is None,
            phdrs_in_file(file@),
            !end_overflows(file@, n as int),
            min_addr == min_paddr(file@, i as int),
            max_addr == max_end(file@, i as int),
        decreases n - i,
    {
        let ph = read_phdr(file, i);
        proof {
            lemma_min_max(file@, i as int);
            if end_overflows(file@, i + 1) {
                lemma_end_overflows_mono(file@, i + 1, n as int);
            }
        }
        if ph.ptype == PT_LOAD as u64 {
            let seg_end = ph.paddr + ph.memsz;
            if ph.paddr < min_addr {
                min_addr = ph.paddr;
            }
            if seg_end > max_addr {
                max_addr = seg_end;
            }
        }
        i = i + 1;
    }
    proof {
        lemma_min_max(file@, n as int);
    }
    let kernel_size = max_addr - min_addr;
    let pages: usize = ((kernel_size as usize) + (4096 - 1)) / 4096;
    proof {
        let x = (kernel_size as usize) + 4095;
        assert(pages * 4096 <= x) by (nonlinear_arith)
            requires
                pages == x / 4096,
                x >= 0,
        ;
    }
    let cap: usize = pages * 4096;
    let mut segments: Vec<SegmentCopy> = Vec::new();
    let mut j: u64 = 0;
    while j < n
        invariant
            j <= n,
            n == e_phnum(file@),
            header_error(file@) is None,
            phdrs_in_file(file@),
            !end_overflows(file@, n as int),
            min_addr == min_paddr(file@, n as int),
            kernel_size == image_size(file@),
            pages == (((image_size(file@) as usize) + 4095) / 4096) as usize,
            cap == pages * 4096,
            segments@ == copies(file@, j as int, min_addr as int),
            copies_fit(segments@, file@.len() as int, cap as int),
        decreases n - j,
    {
        let ph = read_phdr(file, j);
        proof {
            lemma_min_max(file@, n as int);
        }
        if ph.ptype == PT_LOAD as u64 && ph.filesz > 0 {
            assert(is_load(file@, j as int));
            let dest = ph.paddr - min_addr;
            if ph.filesz > file.len() as u64 || ph.offset > file.len() as u64 - ph.filesz || ph.filesz > cap as u64
                || dest > cap as u64 - ph.filesz {
                proof {
                    assert(file@.len() == file.len());
                    assert(ph.offset + ph.filesz > file@.len() || dest + ph.filesz > cap);
                    let c = copies(file@, j + 1, min_addr as int);
                    assert(c.last() == SegmentCopy { dest, src: ph.offset, len: ph.filesz });
                    lemma_copies_prefix(file@, j + 1, n as int, min_addr as int);
                    assert(copies(file@, n as int, min_addr as int)[c.len() - 1] == c.last());
                    assert(!copies_fit(copies(file@, n as int, min_addr as int), file@.len() as int, cap as int));
                }
                return Err(BootError::InvalidParameter);
            }
            segments.push(SegmentCopy { dest, src: ph.offset, len: ph.filesz });
        }
        j = j + 1;
    }
    let entry = crate::wire::read_le(file, 24, 8);
    Ok(KernelLayout { min_addr, size: kernel_size, pages, entry_offset: entry - min_addr, segments })
}

/// Fill the kernel image: its pages zeroed, then the segments copied in
/// order from the file.
pub fn build_kernel_image(file: &[u8], layout: &KernelLayout) -> (img: Vec<u8>)
    requires
        layout.pages * 4096 <= usize::MAX,
        copies_fit(layout@.segments, file@.len() as int, layout.pages * 4096),
    ensures
        img@ == kernel_image(file@, layout@),
{
    let cap: usize = layout.pages * 4096;
    let mut img: Vec<u8> = Vec::new();
    while img.len() < cap
        invariant
            img@.len() <= cap,
            forall|k: int| 0 <= k < img@.len() ==> img@[k] == 0u8,
        decreases cap - img@.len(),
    {
        img.push(0);
    }
    let ghost zero = img@;
    let ghost segs = layout.segments@;
    assert(zero =~= Seq::new((layout.pages * 4096) as nat, |k: int| 0u8));
    assert(segs.take(0) =~= Seq::<SegmentCopy>::empty());
    let mut j: usize = 0;
    while j < layout.segments.len()
        invariant
            j <= segs.len(),
            segs == layout.segments@,
            zero.len() == cap,
            cap == layout.pages * 4096,
            copies_fit(segs, file@.len() as int, cap as int),
            img@.len() == cap,
            img@ == copied(zero, file@, segs.take(j as int)),
        decreases segs.len() - j,
    {
        let c = layout.segments[j];
        assert(segs[j as int] == c);
        let ghost prev = img@;
        let mut t: u64 = 0;
        while t < c.len
            invariant
                t <= c.len,
                c.src + c.len <= file@.len(),
                c.dest + c.len <= cap,
                file@.len() == file.len(),
                img@.len() == cap,
                prev.len() == cap,
                forall|k: int|
                    0 <= k < cap ==> #[trigger] img@[k] == (if c.dest <= k < c.dest + t {
                        file@[c.src + (k - c.dest)]
                    } else {
                        prev[k]
                    }),
            decreases c.len - t,
        {
            img.set((c.dest + t) as usize, file[(c.src + t) as usize]);
            t = t + 1;
        }
        assert(segs.take(j + 1).drop_last() =~= segs.take(j as int));
        assert(segs.take(j + 1).last() == c);
        assert(img@ =~= copied(zero, file@, segs.take(j + 1)));
        j = j + 1;
    }
    assert(segs.take(j as int) =~= segs);
    img
}

/// The loaded kernel once its image is at `kernel_phys`.
pub fn place_kernel(kernel_phys: u64, layout: &KernelLayout) -> (k: LoadedKernel)
    requires
        kernel_phys + layout.entry_offset <= u64::MAX,
    ensures
        k.entry == kernel_phys + layout.entry_offset,
        k.phys_addr == kernel_phys,
        k.size == layout.size,
{
    LoadedKernel { entry: kernel_phys + layout.entry_offset, phys_addr: kernel_phys, size: layout.size }
}

} // verus!
