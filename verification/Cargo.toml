[package]
name = "genetic_painter"
version = "0.1.0"
edition = "2021"
publish = false

[dependencies]
clap = "=2.34.0"
image = { version = "=0.25.10", default-features = false, features = ["bmp", "gif", "hdr", "ico", "jpeg", "png", "pnm", "tga", "tiff", "webp"] }
imageproc = { version = "=0.25.1", default-features = false }
rand = "=0.8.8"
rsgenetic = "=1.8.1"
