pub mod channel;
pub mod console;
pub mod control;
pub mod descriptor;
pub mod dirents;
pub mod handle;
pub mod laws;
pub mod lifecycle;
pub mod open_flags;
pub mod pipe_flags;
pub mod stdin;
pub mod table;
pub mod table_laws;
pub mod transfer;
pub mod use_laws;
