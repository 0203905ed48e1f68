//! The in-memory file system.
pub mod attrs;
pub mod flag_laws;
pub mod laws;
pub mod model;
pub mod node_laws;
pub mod ops;
pub mod refusal_laws;
pub mod setup;
pub mod store;
