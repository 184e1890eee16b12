[package]
name = "glyphgrid"
version = "0.1.0"
edition = "2021"
publish = false

[dependencies]
getopts = "=0.2.24"
image = { version = "=0.25.10", default-features = false, features = ["bmp", "dds", "ff", "gif", "hdr", "ico", "jpeg", "png", "pnm", "qoi", "tga", "tiff", "webp"] }
