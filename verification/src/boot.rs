//! The record the boot loader hands to the kernel, as the kernel reads it:
//! the framebuffer, the memory map and the command line.
use vstd::prelude::*;
use vstd::slice::slice_to_vec;

verus! {

/// Information passed from bootloader to kernel
#[derive(Debug, Clone)]
pub struct BootInfo {
    /// Magic number for validation
    pub magic: u64,
    /// Version of the boot info structure
    pub version: u32,
    /// Size of this structure
    pub size: u32,
    /// Physical address of the kernel entry point
    pub kernel_entry: u64,
    /// Physical address of kernel image
    pub kernel_phys_addr: u64,
    /// Size of loaded kernel image
    pub kernel_size: u64,
    /// Framebuffer information
    pub framebuffer: FramebufferInfo,
    /// Memory map
    pub memory_map: MemoryMapInfo,
    /// ACPI RSDP address
    pub acpi_rsdp: u64,
    /// Kernel command line
    pub cmdline_phys: u64,
    pub cmdline_len: u32,
    /// Reserved for future use
    pub reserved: [u64; 8],
}

/// The magic number of a boot information record ("BOOTINFO").
pub const BOOT_INFO_MAGIC: u64 = 0x424F4F54_494E464F;

/// The version of the boot information record.
pub const BOOT_INFO_VERSION: u32 = 1;

impl BootInfo {
    /// The command line, given the `cmdline_len` bytes that lie at
    /// `cmdline_phys`: none when the address or the length is zero, or when
    /// the bytes are not UTF-8.
    pub fn cmdline<'a>(&self, bytes: &'a [u8]) -> (r: Option<&'a str>)
        requires
            bytes@.len() == self.cmdline_len,
        ensures
            r.is_some() <==> (self.cmdline_phys != 0 && self.cmdline_len != 0 && vstd::utf8::valid_utf8(bytes@)),
            r matches Some(s) ==> vstd::utf8::encode_utf8(s@) == bytes@,
    {
        if self.cmdline_phys == 0 || self.cmdline_len == 0 {
            return None;
        }
        crate::text::str_from_utf8(bytes)
    }
}

/// Framebuffer information
#[derive(Debug, Clone, Copy)]
pub struct FramebufferInfo {
    /// Physical address of framebuffer
    pub address: u64,
    /// Width in pixels
    pub width: u32,
    /// Height in pixels
    pub height: u32,
    /// Bytes per scan line (may be more than four times the width, for padding)
    pub pitch: u32,
    /// Bits per pixel
    pub bpp: u8,
    /// Pixel format
    pub pixel_format: PixelFormatInfo,
    /// Size of framebuffer in bytes
    pub size: u64,
}

impl FramebufferInfo {
    /// Pixels per scan line.
    pub open spec fn stride(self) -> int {
        self.pitch as int / 4
    }

    /// Calculate pixel offset for given coordinates
    pub fn pixel_offset(&self, x: u32, y: u32) -> (r: usize)
        requires
            y * self.stride() + x <= u32::MAX,
        ensures
            r == y * self.stride() + x,
    {
        let stride: u32 = self.pitch / 4;
        proof {
            assert(0 <= y * stride) by (nonlinear_arith);
        }
        (y * stride + x) as usize
    }
}

/// Pixel format details
#[derive(Debug, Clone, Copy)]
pub struct PixelFormatInfo {
    pub red_mask_size: u8,
    pub red_mask_shift: u8,
    pub green_mask_size: u8,
    pub green_mask_shift: u8,
    pub blue_mask_size: u8,
    pub blue_mask_shift: u8,
    pub reserved_mask_size: u8,
    pub reserved_mask_shift: u8,
}

impl PixelFormatInfo {
    /// The pixel value with the given red, green and blue components.
    pub open spec fn pixel(self, r: u8, g: u8, b: u8) -> u32 {
        ((r as u32) << self.red_mask_shift) | ((g as u32) << self.green_mask_shift) | ((b as u32) << self.blue_mask_shift)
    }

    /// Create a pixel value from RGB components
    pub fn rgb(&self, r: u8, g: u8, b: u8) -> (p: u32)
        requires
            self.red_mask_shift < 32,
            self.green_mask_shift < 32,
            self.blue_mask_shift < 32,
        ensures
            p == self.pixel(r, g, b),
    {
        ((r as u32) << self.red_mask_shift) | ((g as u32) << self.green_mask_shift) | ((b as u32) << self.blue_mask_shift)
    }
}

/// Memory map information
#[derive(Debug, Clone)]
pub struct MemoryMapInfo {
    /// Physical address of memory map entries
    pub entries_phys: u64,
    /// Number of entries
    pub entry_count: u32,
    /// Size of each entry
    pub entry_size: u32,
    /// Total usable memory in bytes
    pub total_memory: u64,
}

impl MemoryMapInfo {
    /// Iterate over memory regions, given the `entry_count` regions that lie
    /// at `entries_phys`.
    pub fn iter(&self, entries: &[MemoryRegion]) -> (it: MemoryRegionIter)
        requires
            entries@.len() == self.entry_count,
        ensures
            it.remaining() == entries@,
    {
        let regions = slice_to_vec(entries);
        let it = MemoryRegionIter { regions, next: 0 };
        assert(it.regions@.skip(0) =~= entries@);
        it
    }
}

/// Memory region type
#[derive(Clone, Copy, Debug, PartialEq, Eq, Structural)]
pub enum MemoryRegionType {
    /// Available for general use
    Usable,
    /// Reserved by firmware
    Reserved,
    /// ACPI tables (can be reclaimed after parsing)
    AcpiReclaimable,
    /// ACPI NVS memory
    AcpiNvs,
    /// Memory-mapped I/O
    Mmio,
    /// Kernel code and data
    Kernel,
    /// Bootloader data
    Bootloader,
    /// Framebuffer
    Framebuffer,
}

impl MemoryRegionType {
    /// The numeric code of this value on the wire.
    pub open spec fn code(self) -> u32 {
        match self {
            MemoryRegionType::Usable => 0x0,
            MemoryRegionType::Reserved => 0x1,
            MemoryRegionType::AcpiReclaimable => 0x2,
            MemoryRegionType::AcpiNvs => 0x3,
            MemoryRegionType::Mmio => 0x4,
            MemoryRegionType::Kernel => 0x5,
            MemoryRegionType::Bootloader => 0x6,
            MemoryRegionType::Framebuffer => 0x7,
        }
    }

    /// The numeric code of this value on the wire.
    pub fn to_u32(&self) -> (r: u32)
        ensures
            r == self.code(),
    {
        match self {
            MemoryRegionType::Usable => 0x0,
            MemoryRegionType::Reserved => 0x1,
            MemoryRegionType::AcpiReclaimable => 0x2,
            MemoryRegionType::AcpiNvs => 0x3,
            MemoryRegionType::Mmio => 0x4,
            MemoryRegionType::Kernel => 0x5,
            MemoryRegionType::Bootloader => 0x6,
            MemoryRegionType::Framebuffer => 0x7,
        }
    }

    /// The value whose code is `v`, if any.
    pub open spec fn decode(v: u32) -> Option<MemoryRegionType> {
        if v == 0x0 { Some(MemoryRegionType::Usable) } else { if v == 0x1 { Some(MemoryRegionType::Reserved) } else { if v == 0x2 { Some(MemoryRegionType::AcpiReclaimable) } else { if v == 0x3 { Some(MemoryRegionType::AcpiNvs) } else { if v == 0x4 { Some(MemoryRegionType::Mmio) } else { if v == 0x5 { Some(MemoryRegionType::Kernel) } else { if v == 0x6 { Some(MemoryRegionType::Bootloader) } else { if v == 0x7 { Some(MemoryRegionType::Framebuffer) } else { None } } } } } } } }
    }

    /// The value whose code is `v`, if any.
    pub fn from_u32(v: u32) -> (r: Option<MemoryRegionType>)
        ensures
            r == MemoryRegionType::decode(v),
    {
        match v {
            0x0 => Some(MemoryRegionType::Usable),
            0x1 => Some(MemoryRegionType::Reserved),
            0x2 => Some(MemoryRegionType::AcpiReclaimable),
            0x3 => Some(MemoryRegionType::AcpiNvs),
            0x4 => Some(MemoryRegionType::Mmio),
            0x5 => Some(MemoryRegionType::Kernel),
            0x6 => Some(MemoryRegionType::Bootloader),
            0x7 => Some(MemoryRegionType::Framebuffer),
            _ => None,
        }
    }

    /// Decoding the code of a value gives the value back.
    pub proof fn lemma_code_roundtrip(self)
        ensures
            MemoryRegionType::decode(self.code()) == Some(self),
    {
    }

}

/// Memory region descriptor
#[derive(Debug, Clone, Copy)]
pub struct MemoryRegion {
    /// Physical start address
    pub phys_start: u64,
    /// Number of pages
    pub page_count: u64,
    /// Region type
    pub region_type: MemoryRegionType,
}

impl MemoryRegion {
    /// Get the end address of this region
    pub fn end(&self) -> (r: u64)
        requires
            self.phys_start + self.page_count * 4096 <= u64::MAX,
        ensures
            r == self.phys_start + self.page_count * 4096,
    {
        self.phys_start + self.page_count * 4096
    }

    /// Get the size in bytes
    pub fn size(&self) -> (r: u64)
        requires
            self.page_count * 4096 <= u64::MAX,
        ensures
            r == self.page_count * 4096,
    {
        self.page_count * 4096
    }

    /// Check if this region contains a physical address
    pub fn contains(&self, addr: u64) -> (r: bool)
        requires
            self.phys_start + self.page_count * 4096 <= u64::MAX,
        ensures
            r == (self.phys_start <= addr && addr < self.phys_start + self.page_count * 4096),
    {
        addr >= self.phys_start && addr < self.end()
    }
}

/// Iterator over memory regions
pub struct MemoryRegionIter {
    regions: Vec<MemoryRegion>,
    next: usize,
}

impl MemoryRegionIter {
    /// The regions still to come, in order.
    pub closed spec fn remaining(&self) -> Seq<MemoryRegion> {
        if self.next <= self.regions@.len() { self.regions@.skip(self.next as int) } else { Seq::empty() }
    }

    /// The next region, if any.
    pub fn next(&mut self) -> (r: Option<MemoryRegion>)
        ensures
            old(self).remaining().len() == 0 ==> r.is_none() && final(self).remaining() == old(self).remaining(),
            old(self).remaining().len() > 0 ==> r == Some(old(self).remaining()[0])
                && final(self).remaining() == old(self).remaining().drop_first(),
    {
        if self.next >= self.regions.len() {
            return None;
        }
        let region = self.regions[self.next];
        self.next = self.next + 1;
        assert(self.regions@.skip(self.next as int) =~= old(self).remaining().drop_first());
        Some(region)
    }
}

} // verus!
