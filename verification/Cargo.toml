[package]
name = "snb"
version = "0.1.0"
edition = "2021"
publish = false

[dependencies]
anyhow = "1"
log = "0.4"
env_logger = "0.11"
tokio = { version = "1", features = ["rt", "rt-multi-thread", "macros", "signal", "time"] }
libloading = "0.8"
inventory = "0.3"
toml = "0.8"
rusqlite = "0.32"
