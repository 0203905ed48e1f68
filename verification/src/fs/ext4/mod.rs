//! The ext4 volume as seen from memory: its caches, its names, and what has to
//! be done on disk.
pub mod access;
pub mod cache_laws;
pub mod caches;
pub mod data;
pub mod dirty;
pub mod durable;
pub mod laws;
pub mod link_counts;
pub mod listing;
pub mod lookup_laws;
pub mod mount;
pub mod movement;
pub mod note_laws;
pub mod pages;
pub mod plan_laws;
pub mod plans;
pub mod prefetch;
pub mod regular;
pub mod resolve;
pub mod stat_laws;
pub mod sync;
pub mod types;
pub mod volume;
pub mod writeback;
