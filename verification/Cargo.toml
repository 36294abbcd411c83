[package]
name = "ascii_cam"
version = "0.1.0"
edition = "2021"
publish = false

[dependencies]
anyhow = "1"
clearscreen = "*"
opencv = "*"
