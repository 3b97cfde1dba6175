[package]
name = "galaxy"
version = "0.1.0"
edition = "2021"
publish = false

[dependencies]
tokio = { version = "*", features = ["rt-multi-thread", "time", "sync", "io-util", "macros"] }
tokio-serial = "*"
log = "*"
env_logger = "*"
chrono = "*"
