//! What the drivers compute.
pub mod device_tree;
pub mod hal;
pub mod pci;
pub mod sectors;
