[package]
name = "sing_like_coding"
version = "0.1.0"
edition = "2021"
publish = false

[dependencies]
anyhow = "=1.0.104"
arboard = { version = "*", default-features = false }
bincode = "=2.0.1"
chrono = "=0.4.45"
clap-sys = "*"
env_logger = "*"
libloading = "*"
log = "=0.4.35"
midir = "*"
serde = { version = "=1.0.229", features = ["derive"] }
serde_json = "=1.0.154"
tokio = { version = "=1.54.1", features = ["io-util", "rt", "macros"] }
wmidi = "=4.0.11"
