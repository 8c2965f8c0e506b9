//! What the boot loader decides on the way from the firmware to the kernel:
//! the hand-off record, the kernel's memory map, the framebuffer mode, the
//! ACPI tables, and the pieces of the early consoles, the boot
//! configuration and the kernel image in the submodules.
//!
//! The firmware calls themselves (opening files, allocating pages, setting
//! the video mode, leaving boot services) are made by the caller, which
//! hands the library what they returned.
use vstd::prelude::*;

pub mod config;
pub mod console;
pub mod cpu;
pub mod elf;
pub mod serial;

pub use crate::boot::{FramebufferInfo, MemoryMapInfo, MemoryRegion, MemoryRegionType, PixelFormatInfo};

verus! {

// =============================================================================
// CONSTANTS
// =============================================================================

/// Page size (4KB)
pub const PAGE_SIZE: usize = 4096;

/// Physical memory offset for higher-half kernel mapping
pub const KERNEL_PHYS_OFFSET: u64 = 0xFFFF_8000_0000_0000;

/// Magic number expected in kernel header
pub const KERNEL_MAGIC: u64 = 0x51554E5441_4F5321;

/// Kernel stack size (64KB)
pub const KERNEL_STACK_SIZE: usize = 64 * 1024;

/// Maximum memory map entries
pub const MAX_MEMORY_MAP_ENTRIES: usize = 512;

/// UEFI memory types (the numbers of the UEFI specification).
pub const EFI_RESERVED: u32 = 0;
pub const EFI_LOADER_CODE: u32 = 1;
pub const EFI_LOADER_DATA: u32 = 2;
pub const EFI_BOOT_SERVICES_CODE: u32 = 3;
pub const EFI_BOOT_SERVICES_DATA: u32 = 4;
pub const EFI_RUNTIME_SERVICES_CODE: u32 = 5;
pub const EFI_RUNTIME_SERVICES_DATA: u32 = 6;
pub const EFI_CONVENTIONAL: u32 = 7;
pub const EFI_UNUSABLE: u32 = 8;
pub const EFI_ACPI_RECLAIM: u32 = 9;
pub const EFI_ACPI_NON_VOLATILE: u32 = 10;
pub const EFI_MMIO: u32 = 11;
pub const EFI_MMIO_PORT_SPACE: u32 = 12;

// =============================================================================
// BOOT INFORMATION
// =============================================================================

/// Information passed from bootloader to kernel
#[derive(Debug, Clone)]
pub struct BootInfo {
    /// Magic number for validation
    pub magic: u64,
    /// Version of the boot info structure
    pub version: u32,
    /// Size of this structure
    pub size: u32,
    /// Physical address of the kernel entry point
    pub kernel_entry: u64,
    /// Physical address of kernel image
    pub kernel_phys_addr: u64,
    /// Size of loaded kernel image
    pub kernel_size: u64,
    /// Framebuffer information
    pub framebuffer: FramebufferInfo,
    /// Memory map
    pub memory_map: MemoryMapInfo,
    /// ACPI RSDP address
    pub acpi_rsdp: u64,
    /// Kernel command line
    pub cmdline_phys: u64,
    pub cmdline_len: u32,
    /// Initial ramdisk (initrd)
    pub initrd_phys: u64,
    pub initrd_size: u64,
    /// Secure Boot status
    pub secure_boot: u8,
    /// Reserved for future use
    pub reserved: [u64; 6],
}

/// Initrd information
#[derive(Debug, Clone, Copy)]
pub struct InitrdInfo {
    /// Physical address of initrd
    pub address: u64,
    /// Size in bytes
    pub size: u64,
}

/// Where the kernel image was placed.
#[derive(Debug, Clone, Copy)]
pub struct LoadedKernel {
    /// Physical address of the entry point
    pub entry: u64,
    /// Physical address of the image
    pub phys_addr: u64,
    /// Size of the image in bytes
    pub size: u64,
}

/// Secure Boot status
#[derive(Debug, Clone, Copy, PartialEq, Eq, Structural)]
pub enum SecureBootStatus {
    /// Secure Boot is disabled
    Disabled,
    /// Secure Boot is enabled in setup mode
    SetupMode,
    /// Secure Boot is enabled and active
    Enabled,
    /// Could not determine status
    Unknown,
}

impl SecureBootStatus {
    /// The byte that records this status in the boot information.
    pub open spec fn code(self) -> u8 {
        match self {
            SecureBootStatus::Disabled => 0,
            SecureBootStatus::SetupMode => 1,
            SecureBootStatus::Enabled => 2,
            SecureBootStatus::Unknown => 255,
        }
    }

    /// The byte that records this status in the boot information.
    pub fn to_u8(&self) -> (r: u8)
        ensures
            r == self.code(),
    {
        match self {
            SecureBootStatus::Disabled => 0,
            SecureBootStatus::SetupMode => 1,
            SecureBootStatus::Enabled => 2,
            SecureBootStatus::Unknown => 255,
        }
    }
}

/// Check Secure Boot status: the variable is not read yet, so the status
/// is always unknown.
pub fn check_secure_boot() -> (r: SecureBootStatus)
    ensures
        r == SecureBootStatus::Unknown,
{
    SecureBootStatus::Unknown
}

/// Verify the kernel signature: verification is not implemented yet, so
/// every image is accepted.
pub fn verify_kernel_signature(kernel_data: &[u8]) -> (r: bool)
    ensures
        r,
{
    true
}

/// The boot information record for the kernel.
///
/// The memory map lies at `regions_phys` with `region_count` entries; the
/// command line at `cmdline_phys`.
pub fn build_boot_info(
    kernel: LoadedKernel,
    framebuffer: FramebufferInfo,
    regions_phys: u64,
    region_count: u32,
    total_memory: u64,
    acpi_rsdp: u64,
    cmdline_phys: u64,
    cmdline_len: usize,
    initrd: Option<InitrdInfo>,
    secure_boot: SecureBootStatus,
) -> (b: BootInfo)
    ensures
        b.magic == crate::boot::BOOT_INFO_MAGIC,
        b.version == crate::boot::BOOT_INFO_VERSION,
        b.size == vstd::layout::size_of::<BootInfo>() as u32,
        b.kernel_entry == kernel.entry,
        b.kernel_phys_addr == kernel.phys_addr,
        b.kernel_size == kernel.size,
        b.framebuffer == framebuffer,
        b.memory_map.entries_phys == regions_phys,
        b.memory_map.entry_count == region_count,
        b.memory_map.entry_size == vstd::layout::size_of::<MemoryRegion>() as u32,
        b.memory_map.total_memory == total_memory,
        b.acpi_rsdp == acpi_rsdp,
        b.cmdline_phys == cmdline_phys,
        b.cmdline_len == cmdline_len as u32,
        b.initrd_phys == (match initrd { Some(i) => i.address, None => 0 }),
        b.initrd_size == (match initrd { Some(i) => i.size, None => 0 }),
        b.secure_boot == secure_boot.code(),
        b.reserved@ == seq![0u64, 0, 0, 0, 0, 0],
{
    let (initrd_phys, initrd_size) = match initrd {
        Some(info) => (info.address, info.size),
        None => (0, 0),
    };
    let reserved: [u64; 6] = [0, 0, 0, 0, 0, 0];
    proof {
        assert(reserved@ =~= seq![0u64, 0, 0, 0, 0, 0]);
    }
    BootInfo {
        magic: crate::boot::BOOT_INFO_MAGIC,
        version: crate::boot::BOOT_INFO_VERSION,
        size: core::mem::size_of::<BootInfo>() as u32,
        kernel_entry: kernel.entry,
        kernel_phys_addr: kernel.phys_addr,
        kernel_size: kernel.size,
        framebuffer,
        memory_map: MemoryMapInfo {
            entries_phys: regions_phys,
            entry_count: region_count,
            entry_size: core::mem::size_of::<MemoryRegion>() as u32,
            total_memory,
        },
        acpi_rsdp,
        cmdline_phys,
        cmdline_len: cmdline_len as u32,
        initrd_phys,
        initrd_size,
        secure_boot: secure_boot.to_u8(),
        reserved,
    }
}

/// Pages needed to hold `size` bytes.
pub fn pages_for(size: usize) -> (r: usize)
    requires
        size + 4095 <= usize::MAX,
    ensures
        r == (size + 4095) / 4096,
{
    (size + (PAGE_SIZE - 1)) / PAGE_SIZE
}

/// Format bytes as human-readable string
pub fn format_bytes(bytes: u64) -> (r: (u64, &'static str))
    ensures
        bytes >= 0x4000_0000 ==> r.0 == bytes / 0x4000_0000 && r.1@ == "GB"@,
        0x10_0000 <= bytes < 0x4000_0000 ==> r.0 == bytes / 0x10_0000 && r.1@ == "MB"@,
        1024 <= bytes < 0x10_0000 ==> r.0 == bytes / 1024 && r.1@ == "KB"@,
        bytes < 1024 ==> r.0 == bytes && r.1@ == "B"@,
{
    if bytes >= 1024 * 1024 * 1024 {
        (bytes / (1024 * 1024 * 1024), "GB")
    } else if bytes >= 1024 * 1024 {
        (bytes / (1024 * 1024), "MB")
    } else if bytes >= 1024 {
        (bytes / 1024, "KB")
    } else {
        (bytes, "B")
    }
}

/// Why a boot step failed (the firmware status it reports).
#[derive(Debug, Clone, Copy, PartialEq, Eq, Structural)]
pub enum BootError {
    /// A protocol, file or graphics mode was not found.
    NotFound,
    /// A device could not be read or set up.
    DeviceError,
    /// Pages could not be allocated.
    OutOfResources,
    /// The kernel image is malformed.
    InvalidParameter,
    /// The kernel image or the graphics mode is of a kind that is not supported.
    Unsupported,
}

// =============================================================================
// MEMORY MAP
// =============================================================================

/// A firmware memory descriptor: the fields of the UEFI descriptor that the
/// loader reads.
#[derive(Debug, Clone, Copy)]
pub struct MemoryDescriptor {
    /// UEFI memory type
    pub ty: u32,
    /// Physical start address
    pub phys_start: u64,
    /// Number of pages
    pub page_count: u64,
}

/// The kernel's region type for a UEFI memory type: conventional memory and
/// boot services memory are usable, loader memory belongs to the loader.
pub open spec fn region_type_of(ty: u32) -> MemoryRegionType {
    if ty == EFI_CONVENTIONAL || ty == EFI_BOOT_SERVICES_CODE || ty == EFI_BOOT_SERVICES_DATA {
        MemoryRegionType::Usable
    } else if ty == EFI_LOADER_CODE || ty == EFI_LOADER_DATA {
        MemoryRegionType::Bootloader
    } else if ty == EFI_ACPI_RECLAIM {
        MemoryRegionType::AcpiReclaimable
    } else if ty == EFI_ACPI_NON_VOLATILE {
        MemoryRegionType::AcpiNvs
    } else if ty == EFI_MMIO || ty == EFI_MMIO_PORT_SPACE {
        MemoryRegionType::Mmio
    } else {
        MemoryRegionType::Reserved
    }
}

/// The kernel's region type for a UEFI memory type.
pub fn region_type_for(ty: u32) -> (r: MemoryRegionType)
    ensures
        r == region_type_of(ty),
{
    if ty == EFI_CONVENTIONAL || ty == EFI_BOOT_SERVICES_CODE || ty == EFI_BOOT_SERVICES_DATA {
        MemoryRegionType::Usable
    } else if ty == EFI_LOADER_CODE || ty == EFI_LOADER_DATA {
        MemoryRegionType::Bootloader
    } else if ty == EFI_ACPI_RECLAIM {
        MemoryRegionType::AcpiReclaimable
    } else if ty == EFI_ACPI_NON_VOLATILE {
        MemoryRegionType::AcpiNvs
    } else if ty == EFI_MMIO || ty == EFI_MMIO_PORT_SPACE {
        MemoryRegionType::Mmio
    } else {
        MemoryRegionType::Reserved
    }
}

/// The kernel's region for a firmware descriptor.
pub open spec fn region_of(d: MemoryDescriptor) -> MemoryRegion {
    MemoryRegion { phys_start: d.phys_start, page_count: d.page_count, region_type: region_type_of(d.ty) }
}

/// Memory types that count as system memory: conventional, boot services
/// and loader memory.
pub open spec fn is_system_ram(ty: u32) -> bool {
    ty == EFI_CONVENTIONAL || ty == EFI_BOOT_SERVICES_CODE || ty == EFI_BOOT_SERVICES_DATA
        || ty == EFI_LOADER_CODE || ty == EFI_LOADER_DATA
}

/// Whether a descriptor is counted: as system memory when `ram`, as usable
/// memory of the kernel's map otherwise.
pub open spec fn is_counted(d: MemoryDescriptor, ram: bool) -> bool {
    if ram { is_system_ram(d.ty) } else { region_type_of(d.ty) == MemoryRegionType::Usable }
}

/// Bytes in the counted descriptors of `s`.
pub open spec fn counted_bytes(s: Seq<MemoryDescriptor>, ram: bool) -> nat
    decreases s.len(),
{
    if s.len() == 0 {
        0
    } else {
        counted_bytes(s.drop_last(), ram) + if is_counted(s.last(), ram) { (s.last().page_count as nat) * 4096 } else { 0 }
    }
}

proof fn lemma_counted_prefix(s: Seq<MemoryDescriptor>, ram: bool, i: int, j: int)
    requires
        0 <= i <= j <= s.len(),
    ensures
        counted_bytes(s.take(i), ram) <= counted_bytes(s.take(j), ram),
    decreases j - i,
{
    if i < j {
        lemma_counted_prefix(s, ram, i, j - 1);
        assert(s.take(j).drop_last() =~= s.take(j - 1));
    }
}

/// The descriptors the kernel's map is built from: the first
/// `MAX_MEMORY_MAP_ENTRIES`.
pub open spec fn map_prefix(s: Seq<MemoryDescriptor>) -> Seq<MemoryDescriptor> {
    if s.len() > 512 { s.take(512) } else { s }
}

/// The kernel's memory map for the firmware's descriptors, at most
/// `MAX_MEMORY_MAP_ENTRIES` of them, and the bytes of usable memory in it.
pub fn build_memory_map(descs: &[MemoryDescriptor]) -> (r: (Vec<MemoryRegion>, u64))
    requires
        counted_bytes(map_prefix(descs@), false) <= u64::MAX,
    ensures
        r.0@.len() == map_prefix(descs@).len(),
        forall|i: int| 0 <= i < r.0@.len() ==> #[trigger] r.0@[i] == region_of(descs@[i]),
        r.1 == counted_bytes(map_prefix(descs@), false),
{
    let ghost n = map_prefix(descs@).len() as int;
    let mut regions: Vec<MemoryRegion> = Vec::new();
    let mut total: u64 = 0;
    let mut i: usize = 0;
    assert(descs@.take(0) =~= Seq::<MemoryDescriptor>::empty());
    assert(map_prefix(descs@) =~= descs@.take(n));
    while i < descs.len() && i < MAX_MEMORY_MAP_ENTRIES
        invariant
            i <= n,
            n == map_prefix(descs@).len(),
            n <= descs@.len(),
            map_prefix(descs@) == descs@.take(n),
            counted_bytes(descs@.take(n), false) <= u64::MAX,
            regions@.len() == i,
            forall|k: int| 0 <= k < i ==> #[trigger] regions@[k] == region_of(descs@[k]),
            total == counted_bytes(descs@.take(i as int), false),
        decreases descs@.len() - i,
    {
        let d = descs[i];
        let region_type = region_type_for(d.ty);
        proof {
            lemma_counted_prefix(descs@, false, i + 1, n);
            assert(descs@.take(i + 1).drop_last() =~= descs@.take(i as int));
            assert(descs@.take(n).take(i + 1) =~= descs@.take(i + 1));
        }
        if region_type == MemoryRegionType::Usable {
            total = total + d.page_count * 4096;
        }
        regions.push(MemoryRegion { phys_start: d.phys_start, page_count: d.page_count, region_type });
        i = i + 1;
    }
    (regions, total)
}

/// Whether the usable memory of the first `MAX_MEMORY_MAP_ENTRIES`
/// descriptors adds up within 64 bits, as [`build_memory_map`] needs.
pub fn memory_total_fits(descs: &[MemoryDescriptor]) -> (r: bool)
    ensures
        r == (counted_bytes(map_prefix(descs@), false) <= u64::MAX),
{
    let ghost n = map_prefix(descs@).len() as int;
    let mut total: u128 = 0;
    let mut i: usize = 0;
    assert(descs@.take(0) =~= Seq::<MemoryDescriptor>::empty());
    assert(map_prefix(descs@) =~= descs@.take(n));
    while i < descs.len() && i < MAX_MEMORY_MAP_ENTRIES
        invariant
            i <= n,
            n == map_prefix(descs@).len(),
            n <= descs@.len(),
            n <= 512,
            map_prefix(descs@) == descs@.take(n),
            total == counted_bytes(descs@.take(i as int), false),
            total <= i * 0x1_0000_0000_0000_0000_0000u128,
        decreases descs@.len() - i,
    {
        let d = descs[i];
        proof {
            assert(descs@.take(i + 1).drop_last() =~= descs@.take(i as int));
        }
        if region_type_for(d.ty) == MemoryRegionType::Usable {
            total = total + d.page_count as u128 * 4096;
        }
        i = i + 1;
    }
    assert(descs@.take(n) == descs@.take(i as int));
    total <= u64::MAX as u128
}

/// Get total system memory in bytes: the pages of conventional, boot
/// services and loader memory.
pub fn get_total_memory(descs: &[MemoryDescriptor]) -> (r: u64)
    requires
        counted_bytes(descs@, true) <= u64::MAX,
    ensures
        r == counted_bytes(descs@, true),
{
    let mut total: u64 = 0;
    let mut i: usize = 0;
    assert(descs@.take(0) =~= Seq::<MemoryDescriptor>::empty());
    assert(descs@.take(descs@.len() as int) =~= descs@);
    while i < descs.len()
        invariant
            i <= descs@.len(),
            counted_bytes(descs@.take(descs@.len() as int), true) <= u64::MAX,
            total == counted_bytes(descs@.take(i as int), true),
        decreases descs@.len() - i,
    {
        let d = descs[i];
        proof {
            lemma_counted_prefix(descs@, true, i + 1, descs@.len() as int);
            assert(descs@.take(i + 1).drop_last() =~= descs@.take(i as int));
        }
        if d.ty == EFI_CONVENTIONAL || d.ty == EFI_BOOT_SERVICES_CODE || d.ty == EFI_BOOT_SERVICES_DATA
            || d.ty == EFI_LOADER_CODE || d.ty == EFI_LOADER_DATA {
            total = total + d.page_count * 4096;
        }
        i = i + 1;
    }
    total
}

// =============================================================================
// FIRMWARE CONFIGURATION TABLE
// =============================================================================

/// An entry of the firmware's configuration table: a GUID, in its byte
/// layout, and the address of the table it names.
#[derive(Debug, Clone, Copy)]
pub struct ConfigTableEntry {
    pub guid: [u8; 16],
    pub address: u64,
}

/// The GUID of the ACPI 2.0 RSDP.
pub open spec fn acpi2_guid() -> Seq<u8> {
    seq![0x71u8, 0xe8, 0x68, 0x88, 0xf1, 0xe4, 0xd3, 0x11, 0xbc, 0x22, 0x00, 0x80, 0xc7, 0x3c, 0x88, 0x81]
}

/// The GUID of the ACPI 1.0 RSDP.
pub open spec fn acpi1_guid() -> Seq<u8> {
    seq![0x30u8, 0x2d, 0x9d, 0xeb, 0x88, 0x2d, 0xd3, 0x11, 0x9a, 0x16, 0x00, 0x90, 0x27, 0x3f, 0xc1, 0x4d]
}

/// The GUID of the SMBIOS 3.0 entry point.
pub open spec fn smbios3_guid() -> Seq<u8> {
    seq![0xF2u8, 0xFD, 0x32, 0xE3, 0x59, 0xD5, 0xC1, 0x48, 0x8B, 0xAD, 0x9F, 0x7D, 0x4C, 0x4D, 0x37, 0xF5]
}

/// The address of the first entry with GUID `g`, if any.
pub open spec fn first_address(t: Seq<ConfigTableEntry>, g: Seq<u8>) -> Option<u64>
    decreases t.len(),
{
    if t.len() == 0 {
        None
    } else if t[0].guid@ == g {
        Some(t[0].address)
    } else {
        first_address(t.drop_first(), g)
    }
}

/// The RSDP address: of the first ACPI 2.0 entry, else of the first ACPI
/// 1.0 entry, else zero.
pub open spec fn rsdp_address(t: Seq<ConfigTableEntry>) -> u64 {
    match first_address(t, acpi2_guid()) {
        Some(a) => a,
        None => match first_address(t, acpi1_guid()) {
            Some(a) => a,
            None => 0,
        },
    }
}

fn find_table(t: &[ConfigTableEntry], g: &[u8]) -> (r: Option<u64>)
    ensures
        r == first_address(t@, g@),
{
    let mut i: usize = 0;
    assert(t@.skip(0) =~= t@);
    while i < t.len()
        invariant
            i <= t@.len(),
            first_address(t@, g@) == first_address(t@.skip(i as int), g@),
        decreases t@.len() - i,
    {
        let e = t[i];
        assert(t@.skip(i as int)[0] == e);
        if crate::text::bytes_equal(e.guid.as_slice(), g) {
            return Some(e.address);
        }
        assert(t@.skip(i as int).drop_first() =~= t@.skip(i + 1));
        i = i + 1;
    }
    assert(t@.skip(i as int) =~= Seq::<ConfigTableEntry>::empty());
    None
}

/// Find the ACPI RSDP: the ACPI 2.0 table if there is one, else the ACPI
/// 1.0 table, else zero.
pub fn find_acpi_rsdp(t: &[ConfigTableEntry]) -> (r: u64)
    ensures
        r == rsdp_address(t@),
{
    let acpi2: [u8; 16] = [0x71, 0xe8, 0x68, 0x88, 0xf1, 0xe4, 0xd3, 0x11, 0xbc, 0x22, 0x00, 0x80, 0xc7, 0x3c, 0x88, 0x81];
    let acpi1: [u8; 16] = [0x30, 0x2d, 0x9d, 0xeb, 0x88, 0x2d, 0xd3, 0x11, 0x9a, 0x16, 0x00, 0x90, 0x27, 0x3f, 0xc1, 0x4d];
    proof {
        assert(acpi2@ =~= acpi2_guid());
        assert(acpi1@ =~= acpi1_guid());
    }
    match find_table(t, acpi2.as_slice()) {
        Some(a) => a,
        None => match find_table(t, acpi1.as_slice()) {
            Some(a) => a,
            None => 0,
        },
    }
}

/// System information from SMBIOS
#[derive(Debug, Clone)]
pub struct SystemInfo {
    pub vendor: [u8; 64],
    pub product: [u8; 64],
    pub version: [u8; 64],
    pub serial: [u8; 64],
}

/// Get system information from SMBIOS tables: the tables are not parsed
/// yet, so there is never any.
pub fn get_system_info(t: &[ConfigTableEntry]) -> (r: Option<SystemInfo>)
    ensures
        r.is_none(),
{
    let smbios3: [u8; 16] = [0xF2, 0xFD, 0x32, 0xE3, 0x59, 0xD5, 0xC1, 0x48, 0x8B, 0xAD, 0x9F, 0x7D, 0x4C, 0x4D, 0x37, 0xF5];
    match find_table(t, smbios3.as_slice()) {
        Some(_) => None,
        None => None,
    }
}

// =============================================================================
// GRAPHICS MODE
// =============================================================================

/// Pixel formats a graphics mode can have.
#[derive(Debug, Clone, Copy, PartialEq, Eq, Structural)]
pub enum PixelFormat {
    Rgb,
    Bgr,
    Bitmask,
    BltOnly,
}

/// A graphics mode that the firmware offers.
#[derive(Debug, Clone, Copy)]
pub struct ModeInfo {
    pub width: usize,
    pub height: usize,
    /// Pixels per scan line
    pub stride: usize,
    pub pixel_format: PixelFormat,
}

/// How much a mode is preferred: its pixel count, plus a strong bonus for
/// 1920x1080 and a small one for RGB and BGR formats.
pub open spec fn mode_score(m: ModeInfo) -> int {
    m.width * m.height + (if m.width == 1920 && m.height == 1080 { 10_000_000int } else { 0 }) + (if m.pixel_format
        == PixelFormat::Rgb || m.pixel_format == PixelFormat::Bgr { 1000int } else { 0 })
}

/// Whether every mode's score fits in 64 bits.
pub open spec fn scores_fit(modes: Seq<ModeInfo>) -> bool {
    forall|i: int| 0 <= i < modes.len() ==> #[trigger] mode_score(modes[i]) <= u64::MAX
}

fn score_of(m: &ModeInfo) -> (r: u64)
    requires
        mode_score(*m) <= u64::MAX,
    ensures
        r == mode_score(*m),
{
    proof {
        assert(0 <= (m.width as u64) * (m.height as u64)) by (nonlinear_arith);
    }
    let mut score = (m.width as u64) * (m.height as u64);
    if m.width == 1920 && m.height == 1080 {
        score = score + 10_000_000;
    }
    match m.pixel_format {
        PixelFormat::Rgb | PixelFormat::Bgr => score = score + 1000,
        _ => {},
    }
    score
}

/// Whether the score of mode `m` fits in 64 bits.
fn score_fits(m: &ModeInfo) -> (r: bool)
    ensures
        r == (mode_score(*m) <= u64::MAX),
{
    let w = m.width as u64;
    let h = m.height as u64;
    let b1: u64 = if m.width == 1920 && m.height == 1080 { 10_000_000 } else { 0 };
    let b2: u64 = match m.pixel_format {
        PixelFormat::Rgb | PixelFormat::Bgr => 1000,
        _ => 0,
    };
    match w.checked_mul(h) {
        None => false,
        Some(p) => match p.checked_add(b1) {
            None => false,
            Some(q) => q.checked_add(b2).is_some(),
        },
    }
}

/// Whether every mode's score fits in 64 bits, as [`select_mode`] needs.
pub fn scores_fit_check(modes: &[ModeInfo]) -> (r: bool)
    ensures
        r == scores_fit(modes@),
{
    let mut i: usize = 0;
    while i < modes.len()
        invariant
            i <= modes@.len(),
            forall|j: int| 0 <= j < i ==> #[trigger] mode_score(modes@[j]) <= u64::MAX,
        decreases modes@.len() - i,
    {
        if !score_fits(&modes[i]) {
            return false;
        }
        i = i + 1;
    }
    true
}

/// The mode to use: the first of the best-scoring modes, if any mode scores
/// above zero.
pub fn select_mode(modes: &[ModeInfo]) -> (r: Option<usize>)
    requires
        scores_fit(modes@),
    ensures
        r.is_none() <==> forall|i: int| 0 <= i < modes@.len() ==> #[trigger] mode_score(modes@[i]) == 0,
        r matches Some(k) ==> k < modes@.len() && mode_score(modes@[k as int]) > 0
            && (forall|i: int| 0 <= i < modes@.len() ==> #[trigger] mode_score(modes@[i]) <= mode_score(modes@[k as int]))
            && (forall|i: int| 0 <= i < k ==> #[trigger] mode_score(modes@[i]) < mode_score(modes@[k as int])),
{
    let mut best: Option<usize> = None;
    let mut best_score: u64 = 0;
    let mut i: usize = 0;
    while i < modes.len()
        invariant
            i <= modes@.len(),
            scores_fit(modes@),
            best.is_none() ==> best_score == 0 && forall|j: int| 0 <= j < i ==> #[trigger] mode_score(modes@[j]) == 0,
            best matches Some(k) ==> k < i && best_score == mode_score(modes@[k as int]) && best_score > 0
                && (forall|j: int| 0 <= j < i ==> #[trigger] mode_score(modes@[j]) <= best_score)
                && (forall|j: int| 0 <= j < k ==> #[trigger] mode_score(modes@[j]) < best_score),
        decreases modes@.len() - i,
    {
        assert(mode_score(modes@[i as int]) <= u64::MAX);
        let score = score_of(&modes[i]);
        proof {
            assert(mode_score(modes@[i as int]) >= 0) by (nonlinear_arith)
                requires modes@[i as int].width >= 0, modes@[i as int].height >= 0;
        }
        if score > best_score {
            best_score = score;
            best = Some(i);
        }
        i = i + 1;
    }
    best
}

/// The channel layout of a pixel format: BGR for the bitmask formats too.
pub open spec fn format_layout(f: PixelFormat) -> PixelFormatInfo {
    if f == PixelFormat::Rgb {
        PixelFormatInfo {
            red_mask_size: 8,
            red_mask_shift: 0,
            green_mask_size: 8,
            green_mask_shift: 8,
            blue_mask_size: 8,
            blue_mask_shift: 16,
            reserved_mask_size: 8,
            reserved_mask_shift: 24,
        }
    } else {
        PixelFormatInfo {
            red_mask_size: 8,
            red_mask_shift: 16,
            green_mask_size: 8,
            green_mask_shift: 8,
            blue_mask_size: 8,
            blue_mask_shift: 0,
            reserved_mask_size: 8,
            reserved_mask_shift: 24,
        }
    }
}

/// The framebuffer of the mode that was set, with the framebuffer's base
/// and size: a mode without a framebuffer (blit only) is not supported.
pub fn framebuffer_from_mode(m: ModeInfo, fb_base: u64, fb_size: u64) -> (r: Result<FramebufferInfo, BootError>)
    requires
        m.stride * 4 <= usize::MAX,
    ensures
        m.pixel_format == PixelFormat::BltOnly ==> r == Err::<FramebufferInfo, BootError>(BootError::Unsupported),
        m.pixel_format != PixelFormat::BltOnly ==> r == Ok::<FramebufferInfo, BootError>(FramebufferInfo {
            address: fb_base,
            width: m.width as u32,
            height: m.height as u32,
            pitch: (m.stride * 4) as u32,
            bpp: 32,
            pixel_format: format_layout(m.pixel_format),
            size: fb_size,
        }),
{
    let pixel_format = match m.pixel_format {
        PixelFormat::Rgb => PixelFormatInfo {
            red_mask_size: 8,
            red_mask_shift: 0,
            green_mask_size: 8,
            green_mask_shift: 8,
            blue_mask_size: 8,
            blue_mask_shift: 16,
            reserved_mask_size: 8,
            reserved_mask_shift: 24,
        },
        PixelFormat::Bgr | PixelFormat::Bitmask => PixelFormatInfo {
            red_mask_size: 8,
            red_mask_shift: 16,
            green_mask_size: 8,
            green_mask_shift: 8,
            blue_mask_size: 8,
            blue_mask_shift: 0,
            reserved_mask_size: 8,
            reserved_mask_shift: 24,
        },
        PixelFormat::BltOnly => {
            return Err(BootError::Unsupported);
        },
    };
    Ok(FramebufferInfo {
        address: fb_base,
        width: m.width as u32,
        height: m.height as u32,
        pitch: (m.stride * 4) as u32,
        bpp: 32,
        pixel_format,
        size: fb_size,
    })
}

// =============================================================================
// FILES AND STACK
// =============================================================================

/// Whether a configuration file of `size` bytes is read: it must be
/// neither empty nor over 4096 bytes.
pub fn config_size_ok(size: usize) -> (r: bool)
    ensures
        r == (size != 0 && size <= 4096),
{
    size != 0 && size <= 4096
}

/// The initial ramdisk read into `address`, if the whole file came in: a
/// short read gives none (and the caller frees the pages).
pub fn initrd_from_read(address: u64, file_size: usize, bytes_read: usize) -> (r: Option<InitrdInfo>)
    ensures
        r is Some <==> bytes_read == file_size,
        r matches Some(i) ==> i.address == address && i.size == file_size,
{
    if bytes_read != file_size {
        return None;
    }
    Some(InitrdInfo { address, size: file_size as u64 })
}

/// Whether the kernel file came in whole: a short read is a device error.
pub fn kernel_read_ok(file_size: usize, bytes_read: usize) -> (r: Result<(), BootError>)
    ensures
        r == if bytes_read == file_size { Ok::<(), BootError>(()) } else { Err(BootError::DeviceError) },
{
    if bytes_read != file_size {
        return Err(BootError::DeviceError);
    }
    Ok(())
}

/// Whether an initial ramdisk of `size` bytes is read at all: an empty
/// one is skipped.
pub fn initrd_size_ok(size: usize) -> (r: bool)
    ensures
        r == (size != 0),
{
    size != 0
}

/// The configuration file's contents, if the whole file of `file_size`
/// bytes came in.
pub fn config_from_read(data: Vec<u8>, file_size: usize, bytes_read: usize) -> (r: Option<Vec<u8>>)
    ensures
        r is Some <==> bytes_read == file_size,
        r matches Some(d) ==> d@ == data@,
{
    if bytes_read != file_size {
        return None;
    }
    Some(data)
}

/// The steps of the boot sequence, in order.
#[derive(Debug, Clone, Copy, PartialEq, Eq, Structural)]
pub enum BootStep {
    /// Read the configuration file
    Config,
    /// Choose and set the video mode
    Framebuffer,
    /// Load the kernel
    Kernel,
    /// Load the initial ramdisk
    Initrd,
    /// Allocate the kernel stack
    Stack,
    /// Allocate the boot information pages
    BootInfoPages,
    /// Allocate the command line page
    Cmdline,
    /// Leave the firmware's boot services
    ExitBootServices,
    /// Hand over to the kernel
    Handoff,
}

/// What the loader does once a step has run.
#[derive(Debug, Clone, Copy, PartialEq, Eq, Structural)]
pub enum BootDecision {
    /// Go on with this step
    Continue(BootStep),
    /// Give up, answering the firmware with this error
    Abort(BootError),
    /// Stop the machine, showing the failure on the screen
    Halt,
    /// A resource the loader cannot do without is missing
    Fatal,
}

/// The step after `step`.
pub open spec fn next_step(step: BootStep) -> BootStep {
    match step {
        BootStep::Config => BootStep::Framebuffer,
        BootStep::Framebuffer => BootStep::Kernel,
        BootStep::Kernel => BootStep::Initrd,
        BootStep::Initrd => BootStep::Stack,
        BootStep::Stack => BootStep::BootInfoPages,
        BootStep::BootInfoPages => BootStep::Cmdline,
        BootStep::Cmdline => BootStep::ExitBootServices,
        BootStep::ExitBootServices | BootStep::Handoff => BootStep::Handoff,
    }
}

/// What follows a step that succeeded (`ok`) or failed: a missing
/// configuration or initial ramdisk is no failure (defaults, none); a
/// framebuffer that cannot be set up gives up with a device error; a
/// kernel that cannot be loaded stops the machine; a missing stack, boot
/// information or command line page is fatal.
pub open spec fn boot_decision(step: BootStep, ok: bool) -> BootDecision {
    if ok || step == BootStep::Config || step == BootStep::Initrd || step == BootStep::ExitBootServices
        || step == BootStep::Handoff {
        BootDecision::Continue(next_step(step))
    } else if step == BootStep::Framebuffer {
        BootDecision::Abort(BootError::DeviceError)
    } else if step == BootStep::Kernel {
        BootDecision::Halt
    } else {
        BootDecision::Fatal
    }
}

/// Decide what follows a step of the boot sequence.
pub fn boot_next(step: BootStep, ok: bool) -> (r: BootDecision)
    ensures
        r == boot_decision(step, ok),
{
    let next = match step {
        BootStep::Config => BootStep::Framebuffer,
        BootStep::Framebuffer => BootStep::Kernel,
        BootStep::Kernel => BootStep::Initrd,
        BootStep::Initrd => BootStep::Stack,
        BootStep::Stack => BootStep::BootInfoPages,
        BootStep::BootInfoPages => BootStep::Cmdline,
        BootStep::Cmdline => BootStep::ExitBootServices,
        BootStep::ExitBootServices | BootStep::Handoff => BootStep::Handoff,
    };
    match step {
        BootStep::Config | BootStep::Initrd | BootStep::ExitBootServices | BootStep::Handoff => BootDecision::Continue(next),
        BootStep::Framebuffer => if ok { BootDecision::Continue(next) } else { BootDecision::Abort(BootError::DeviceError) },
        BootStep::Kernel => if ok { BootDecision::Continue(next) } else { BootDecision::Halt },
        _ => if ok { BootDecision::Continue(next) } else { BootDecision::Fatal },
    }
}

/// The top of the kernel stack allocated at `stack_phys`.
pub fn kernel_stack_top(stack_phys: u64) -> (r: u64)
    requires
        stack_phys + KERNEL_STACK_SIZE <= u64::MAX,
    ensures
        r == stack_phys + KERNEL_STACK_SIZE,
{
    stack_phys + KERNEL_STACK_SIZE as u64
}

} // verus!
