//! What is counted while a build runs, and the report of it.
pub mod archive;
pub mod first;
pub mod groups;
pub mod laws;
pub mod line;
pub mod locks;
pub mod names;
pub mod notes;
pub mod protocol;
pub mod report;
pub mod report_laws;
pub mod waits;
