//! Limits of the early boot.
use vstd::prelude::*;

verus! {

/// How many processors there can be.
pub const MAX_CPUS: usize = 12;

/// The size of the stack that each processor has until a task has been chosen.
pub const SMP_BOOT_STACK_SIZE: usize = 128 * 1024;

} // verus!
