[package]
name = "ellidri"
version = "0.1.0"
edition = "2021"
publish = false

[dependencies]
tokio = { version = "1", default-features = false, features = ["sync", "rt-multi-thread", "net", "io-util"] }
log = "0.4"
env_logger = { version = "0.11", default-features = false }
chrono = { version = "0.4", default-features = false, features = ["clock"] }
