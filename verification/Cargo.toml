[package]
name = "imagespells"
version = "0.1.0"
edition = "2021"
publish = false

[dependencies]
kamadak-exif = "0.6"
image = { version = "=0.18.0", default-features = false }
mozjpeg-sys = { version = "=2.2.3", default-features = false }
libc = "=0.2.191"
