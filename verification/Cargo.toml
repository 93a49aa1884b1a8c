[package]
name = "gearbox"
version = "0.1.0"
edition = "2021"
publish = false

[dependencies]
ahash = "=0.8.12"
anyhow = "=1.0.104"
glam = "*"
image = { version = "=0.25.10", default-features = false, features = ["png", "jpeg", "tga", "bmp", "dds", "ff", "hdr", "ico", "exr", "pnm", "qoi", "tiff", "webp"] }
tobj = "=4.0.5"
ureq = "=3.5.1"
