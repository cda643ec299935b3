[package]
name = "crtcam"
version = "0.1.0"
edition = "2021"
publish = false

[dependencies]
macroquad = "*"
nokhwa = { version = "*", features = ["input-native"] }
