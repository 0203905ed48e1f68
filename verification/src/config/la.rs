//! The layout of memory on LoongArch.
use vstd::prelude::*;

verus! {

/// Where the kernel lies.
pub const KERNEL_BASE: u64 = 0x9000_0000_9000_0000;

/// The size of a page.
pub const PAGE_SIZE: usize = 4096;

/// How many bits of an address lie within a page.
pub const PAGE_SIZE_BITS: usize = 12;

/// Where memory is seen by the kernel.
pub const VIRT_ADDR_START: u64 = 0x9000_0000_0000_0000;

/// Where a program begins.
pub const USER_START_ADDR: usize = 0x1000;

/// The end of the stack of a program.
pub const USER_STACK_TOP: usize = 0x8000_0000;

/// The size of the stack of a program.
pub const USER_STACK_SIZE: usize = 0x1_0000;

/// Where the heap of a program begins.
pub const USER_HEAP_START: usize = 0x1000_0000;

} // verus!
