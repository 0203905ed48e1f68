//! The layout of memory.
pub mod la;
pub mod limits;
pub mod rv;
pub mod user_va;
