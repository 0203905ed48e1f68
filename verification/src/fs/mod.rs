//! The file system layers.
pub mod block_dev;
pub mod content;
pub mod dirent;
pub mod ext4;
pub mod fd;
pub mod memfs;
pub mod node;
pub mod path;
pub mod path_laws;
pub mod vfat;
pub mod vfat_laws;
pub mod vfs;
