[package]
name = "luminaire"
version = "0.1.0"
edition = "2021"
publish = false

[dependencies]
kamadak-exif = "*"
uuid = { version = "*", features = ["v4"] }
chrono = "*"
walkdir = "*"
