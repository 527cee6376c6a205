[package]
name = "ubi"
version = "0.1.0"
edition = "2021"
publish = false

[dependencies]
regex = "1"
uuid = { version = "1", features = ["v4"] }
serde = { version = "1", features = ["derive"] }
serde_json = "1"
clap = "4"
walkdir = "2"
notify = "6"
lazy_static = "1"
include_dir = "0.7"
rust-embed = "8"
