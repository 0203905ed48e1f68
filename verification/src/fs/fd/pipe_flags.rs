//! Flags of creating a pipe.
use vstd::prelude::*;

verus! {

pub const O_NONBLOCK: usize = 0o4000;

pub const O_CLOEXEC: usize = 0o2000000;

} // verus!
