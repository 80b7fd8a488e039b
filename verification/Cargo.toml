[package]
name = "voyage_core"
version = "0.1.0"
edition = "2021"
publish = false

[dependencies]
bytes = "1"
smoltcp = "0.11"
tokio = { version = "1", features = ["net", "io-util", "sync"] }
log = "0.4"
env_logger = "0.11"
thiserror = "1"
