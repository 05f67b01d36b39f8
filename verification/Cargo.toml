[package]
name = "rusted_pixels"
version = "0.1.0"
edition = "2021"
publish = false

[dependencies]
png = "*"
sdl2 = { version = "*", features = ["ttf"] }
