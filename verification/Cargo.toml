[package]
name = "douglang"
version = "0.1.0"
edition = "2021"
publish = false

[dependencies]
flate2 = "*"
ab_glyph = "*"
clap = { version = "4", features = ["derive"] }
image = { version = "*", default-features = false, features = ["png"] }
minifb = "*"
libffi = "*"
tts = "*"
thiserror = "*"
