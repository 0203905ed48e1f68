//! One tree of names over the in-memory file system, the ext4 volume and what
//! is mounted.
pub mod attributes;
pub mod contents;
pub mod creation;
pub mod follow_laws;
pub mod held_laws;
pub mod laws;
pub mod listing;
pub mod lookup;
pub mod made_laws;
pub mod mounts;
pub mod open_laws;
pub mod opening;
pub mod place_laws;
pub mod removal;
pub mod run_laws;
pub mod setup;
pub mod tree;
pub mod tree_laws;
pub mod told_laws;
pub mod types;
