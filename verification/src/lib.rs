//! Core logic of a small Unix-like kernel: paths, the in-memory file system,
//! descriptors, block devices, caches and the rules that tie them together.
//! Everything here is free of I/O; the surrounding program performs it.
#![allow(unused_imports)]

pub mod aged;
pub mod boot;
pub mod bytes;
pub mod config;
pub mod cpu;
pub mod diag;
pub mod drivers;
pub mod errno;
pub mod fs;
pub mod intmap;
pub mod logging;
pub mod task;
pub mod text;
pub mod textmap;
