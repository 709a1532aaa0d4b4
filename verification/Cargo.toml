[package]
name = "backtester"
version = "0.1.0"
edition = "2021"
publish = false

[dependencies]
anyhow = "1"
chrono = "0.4"
env_logger = "*"
log = "0.4"
reqwest = "*"
tempfile = "3"
tokio = { version = "1", features = ["macros", "rt-multi-thread"] }
yata = "*"
zip = "*"
