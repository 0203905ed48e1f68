[package]
name = "wll_os"
version = "0.1.0"
edition = "2021"
publish = false

[dependencies]
ext4_rs = "*"
flat_device_tree = "*"
lazy_static = "*"
log = "*"
polyhal = "*"
spin = "*"
virtio-drivers = "*"
