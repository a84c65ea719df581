[package]
name = "sindri"
version = "0.1.0"
edition = "2021"
publish = false

[dependencies]
serde_json = "1"
base64 = "0.22"
flate2 = "1"
tar = "0.4"
ignore = "0.4"
zstd = "0.13"
clap = { version = "4", features = ["derive"] }
reqwest = { version = "0.12", default-features = false, features = ["blocking"] }
