//! Translation of kernel virtual addresses to physical addresses.

use vstd::prelude::*;

verus! {

/// First address of the kernel-text mapping. Addresses below it belong to
/// the direct map of all physical memory; addresses from it up map the
/// kernel image itself.
pub const START_KERNEL_MAP: u64 = 0xffffffff80000000;

/// The physical address behind a kernel virtual address: a direct-map
/// address is offset by the direct map's base, and a kernel-text address by
/// the kernel image's physical base. The two bases are handed in as plain
/// values; the host kernel exports them as globals.
pub fn virt_to_phys(x: u64, page_offset_base: u64, phys_base: u64) -> (r: u64)
    requires
        x < START_KERNEL_MAP ==> page_offset_base <= x,
        x >= START_KERNEL_MAP ==> phys_base + (x - START_KERNEL_MAP) <= u64::MAX,
    ensures
        x < START_KERNEL_MAP ==> r == x - page_offset_base,
        x >= START_KERNEL_MAP ==> r == phys_base + (x - START_KERNEL_MAP),
{
    if x < START_KERNEL_MAP {
        x - page_offset_base
    } else {
        phys_base + (x - START_KERNEL_MAP)
    }
}

} // verus!
