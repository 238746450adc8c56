[package]
name = "wayland_transfers"
version = "0.1.0"
edition = "2021"
publish = false

[dependencies]
anyhow = "1"
ash = "0.38"
calloop = "0.14"
filedescriptor = "0.8"
image = { version = "0.25", default-features = false, features = ["png"] }
libc = "0.2"
log = "0.4"
rustc-hash = "2"
uuid = { version = "1", features = ["v4"] }
wayland-client = "0.31"
wayland-protocols = { version = "0.32", features = ["client", "unstable"] }
wgpu = "*"
