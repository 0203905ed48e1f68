pub mod device;
pub mod laws;
pub mod loops;
pub mod partitions;
pub mod registry;
