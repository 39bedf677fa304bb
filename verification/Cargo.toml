[package]
name = "image_loader"
version = "0.1.0"
edition = "2021"
publish = false

[dependencies]
image = { version = "=0.25.10", default-features = false, features = ["bmp", "gif", "hdr", "ico", "jpeg", "png", "pnm", "tga", "tiff", "webp"] }
glium = { version = "=0.36.0", default-features = false }
