//! How devices and the kernel see memory.
use vstd::prelude::*;

verus! {

/// Where LoongArch shows memory, cached.
pub const DMW_RAM: u64 = 0x9000_0000_0000_0000;

/// Where LoongArch shows the registers of devices, not cached.
pub const DMW_MMIO: u64 = 0x8000_0000_0000_0000;

/// The bits of an address that are left once a window is taken away.
pub const PHYS_MASK: u64 = 0x0fff_ffff_ffff_ffff;

/// Where the kernel finds memory. On RISC-V addresses are the same on both
/// sides.
pub open spec fn seen_at(paddr: u64, window: u64, loongarch: bool) -> u64 {
    if loongarch {
        paddr | window
    } else {
        paddr
    }
}

/// Where devices find what the kernel sees.
pub open spec fn lies_at(vaddr: u64, loongarch: bool) -> u64 {
    if loongarch {
        vaddr & PHYS_MASK
    } else {
        vaddr
    }
}

/// Where the kernel finds memory.
pub fn phys_to_virt_ram(paddr: u64, loongarch: bool) -> (r: u64)
    ensures
        r == seen_at(paddr, DMW_RAM, loongarch),
{
    if loongarch {
        paddr | DMW_RAM
    } else {
        paddr
    }
}

/// Where the kernel finds the registers of a device.
pub fn phys_to_virt_mmio(paddr: u64, loongarch: bool) -> (r: u64)
    ensures
        r == seen_at(paddr, DMW_MMIO, loongarch),
{
    if loongarch {
        paddr | DMW_MMIO
    } else {
        paddr
    }
}

/// Where devices find what the kernel sees.
pub fn virt_to_phys(vaddr: u64, loongarch: bool) -> (r: u64)
    ensures
        r == lies_at(vaddr, loongarch),
{
    if loongarch {
        vaddr & PHYS_MASK
    } else {
        vaddr
    }
}

/// What the kernel sees of an address below the windows lies at that address.
pub proof fn windows_are_undone(paddr: u64, loongarch: bool)
    requires
        paddr <= PHYS_MASK,
    ensures
        lies_at(seen_at(paddr, DMW_RAM, loongarch), loongarch) == paddr,
        lies_at(seen_at(paddr, DMW_MMIO, loongarch), loongarch) == paddr,
{
    assert((paddr | 0x9000_0000_0000_0000u64) & 0x0fff_ffff_ffff_ffffu64 == paddr) by (bit_vector)
        requires
            paddr <= 0x0fff_ffff_ffff_ffffu64,
    ;
    assert((paddr | 0x8000_0000_0000_0000u64) & 0x0fff_ffff_ffff_ffffu64 == paddr) by (bit_vector)
        requires
            paddr <= 0x0fff_ffff_ffff_ffffu64,
    ;
}

} // verus!
