[package]
name = "fuse_transport"
version = "0.1.0"
edition = "2021"
publish = false

[dependencies]
libc = "=0.2.191"
zerocopy = { version = "=0.7.35", default-features = false }
windows = { version = "0.58", features = ["Win32_Foundation", "Win32_Storage_FileSystem", "Win32_System_IO", "Win32_Security"] }
