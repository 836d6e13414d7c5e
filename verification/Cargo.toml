[package]
name = "file_transfer"
version = "0.1.0"
edition = "2021"
publish = false

[dependencies]
chrono = "0.4"
crc32fast = "1"
flate2 = "1"
sha2 = "0.10"
num_cpus = "1"
keyring = { version = "3", features = ["apple-native"] }
rayon = "1"
walkdir = "2"
crossbeam-channel = "0.5"
ssh2 = "0.9"
eframe = { version = "0.31", default-features = false, features = ["glow", "x11", "default_fonts"] }
