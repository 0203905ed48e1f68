//! Flags of opening a path.
use vstd::prelude::*;

verus! {

pub const O_ACCMODE: u32 = 0o00000003;

pub const O_RDONLY: u32 = 0o00000000;

pub const O_WRONLY: u32 = 0o00000001;

pub const O_RDWR: u32 = 0o00000002;

pub const O_CREAT: u32 = 0o00000100;

pub const O_EXCL: u32 = 0o00000200;

pub const O_TRUNC: u32 = 0o00001000;

pub const O_APPEND: u32 = 0o00002000;

pub const O_DIRECTORY: u32 = 0o00200000;

pub const O_NOFOLLOW: u32 = 0o00400000;

pub const O_NOATIME: u32 = 0o01000000;

pub const O_TMPFILE: u32 = 0o20200000;

pub const O_PATH: u32 = 0o10000000;

pub const O_CLOEXEC: u32 = 0o2000000;

} // verus!
