[package]
name = "image_compressor"
version = "0.1.0"
edition = "2021"
publish = false

[dependencies]
image = { version = "*", default-features = false, features = ["jpeg", "png", "webp", "bmp"] }
fast_image_resize = "4"
jpeg-encoder = "*"
rayon = "*"
crossbeam-channel = "*"
