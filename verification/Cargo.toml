[package]
name = "imgmod"
version = "0.1.0"
edition = "2021"
publish = false

[dependencies]
clap = { version = "4", features = ["derive"] }
crc = "3"
image = { version = "0.25", default-features = false, features = ["jpeg", "png", "tiff", "webp"] }
reqwest = { version = "0.12", features = ["blocking"] }
