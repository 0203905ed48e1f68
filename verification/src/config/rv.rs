//! The layout of memory on RISC-V.
use vstd::prelude::*;

verus! {

/// Where the kernel lies.
pub const KERNEL_BASE: usize = 0x8020_0000;

/// The size of a page.
pub const PAGE_SIZE: usize = 4096;

/// How many bits of an address lie within a page.
pub const PAGE_SIZE_BITS: usize = 12;

/// Where memory is seen by the kernel: the upper 2 GiB.
pub const VIRT_ADDR_START: u64 = 0xffff_ffff_8000_0000;

/// Where the addresses of programs begin.
pub const USER_VADDR_START: u64 = 0;

/// The last address of programs.
pub const USER_VADDR_END: u64 = 0x0000_7fff_ffff_ffff;

/// Where the addresses of the kernel begin.
pub const KERNEL_VADDR_START: u64 = 0xffff_ffff_8000_0000;

/// The last address of the kernel.
pub const KERNEL_VADDR_END: u64 = 0xffff_ffff_ffff_ffff;

/// Where a program begins.
pub const USER_START_ADDR: usize = 0x1000;

/// The size of the stack of a program.
pub const USER_STACK_SIZE: usize = 0x10_0000;

/// The end of the stack of a program; it grows towards lower addresses.
pub const USER_STACK_TOP: usize = 0x7fff_f000;

/// Where the heap of a program begins.
pub const USER_HEAP_START: usize = 0x1000_0000;

} // verus!
