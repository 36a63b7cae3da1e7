[package]
name = "record-native"
version = "0.1.0"
edition = "2021"
publish = false

[dependencies]
chrono = { version = "0.4", default-features = false, features = ["clock", "std"] }
serde = { version = "1", features = ["derive"] }
serde_json = "1"
dirs = "6"
eframe = { version = "0.31", default-features = false, features = ["wgpu", "default_fonts", "x11"] }
image = { version = "0.25", default-features = false, features = ["png"] }
