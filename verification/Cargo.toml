[package]
name = "metadata_fix"
version = "0.1.0"
edition = "2021"
publish = false

[dependencies]
chrono = { version = "0.4", default-features = false, features = ["std"] }
kamadak-exif = "0.5"
png = "0.17"
serde_json = "1"
eframe = { version = "0.29", default-features = false, features = ["glow", "x11", "default_fonts"] }
rfd = "0.15"
