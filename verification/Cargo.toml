[package]
name = "eve_preview_manager"
version = "0.1.0"
edition = "2021"
publish = false

[dependencies]
evdev = "=0.13.2"
serde = { version = "=1.0.229", features = ["derive"] }
serde_json = "=1.0.154"
dirs = "=7.0.0"
chrono = "=0.4.45"
flate2 = "=1.1.10"
tar = "=0.4.46"
anyhow = "=1.0.104"
clap = { version = "=4.6.7", features = ["derive"] }
png = "*"
