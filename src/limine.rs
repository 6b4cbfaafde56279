//! Structures of the boot protocol that the allocator consumes.
use vstd::prelude::*;

verus! {

/// Type tag of a memory-map entry that is free for the kernel to use.
pub const LIMINE_MEMMAP_USABLE: u64 = 0;
pub const LIMINE_MEMMAP_RESERVED: u64 = 1;
pub const LIMINE_MEMMAP_ACPI_RECLAIMABLE: u64 = 2;
pub const LIMINE_MEMMAP_ACPI_NVS: u64 = 3;
pub const LIMINE_MEMMAP_BAD_MEMORY: u64 = 4;
pub const LIMINE_MEMMAP_BOOTLOADER_RECLAIMABLE: u64 = 5;
pub const LIMINE_MEMMAP_KERNEL_AND_MODULES: u64 = 6;
pub const LIMINE_MEMMAP_FRAMEBUFFER: u64 = 7;

/// Higher-half direct map: the offset at which all physical memory is mapped.
#[derive(Clone, Copy)]
pub struct LimineHhdmResponse {
    pub revision: u64,
    pub offset: u64,
}

/// One entry of the boot memory map: a physical range and its type tag.
#[derive(Clone, Copy)]
pub struct LimineMemoryMapEntry {
    pub base: u64,
    pub length: u64,
    pub entry_type: u64,
}

/// Where the kernel image was loaded, physically and virtually.
#[derive(Clone, Copy)]
pub struct LimineKernelAddressResponse {
    pub revision: u64,
    pub physical_base: u64,
    pub virtual_base: u64,
}

} // verus!
