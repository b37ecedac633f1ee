[package]
name = "transfer_engine"
version = "0.1.0"
edition = "2021"
publish = false

[dependencies]
serde_json = "1"
sha1 = "0.10"
serde = { version = "1", features = ["derive"] }
tokio = { version = "1", features = ["sync", "rt", "time"] }
lazy_static = "1"
ali-oss-rs = "*"
