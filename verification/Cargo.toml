[package]
name = "iv2c"
version = "0.1.0"
edition = "2021"
publish = false

[dependencies]
ab_glyph = "*"
clap = { version = "*", features = ["derive"] }
crossterm = "*"
fast_image_resize = "*"
gif = "*"
gif-dispose = "*"
image = "*"
imageproc = "*"
libwebp-sys = "*"
num = "*"
rayon = "*"
serde_json = "*"
