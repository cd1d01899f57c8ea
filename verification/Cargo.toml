[package]
name = "autoloop"
version = "0.1.0"
edition = "2021"
publish = false

[dependencies]
anyhow = "=1.0.104"
chrono = "=0.4.45"
clap = { version = "=4.6.7", features = ["derive"] }
clap_complete = "=4.6.11"
dirs = "=7.0.0"
serde_json = "=1.0.151"
tiktoken-rs = "=0.12.1"
