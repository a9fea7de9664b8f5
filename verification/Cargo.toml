[package]
name = "qemu_display"
version = "0.1.0"
edition = "2021"
publish = false

[dependencies]
image = { version = "0.25", default-features = false }
libc = "0.2"
tokio = { version = "1", features = ["sync", "rt", "rt-multi-thread", "macros"] }
zbus = { version = "3", default-features = false, features = ["tokio"] }
async-trait = "0.1"
