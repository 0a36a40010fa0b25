[package]
name = "fraud_detection"
version = "0.1.0"
edition = "2021"
publish = false

[dependencies]
rand = "*"
rusqlite = { version = "*", features = ["bundled"] }
tokio = { version = "*", features = ["sync", "rt-multi-thread", "macros"] }
