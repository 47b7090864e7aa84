[package]
name = "tokimo-package-hls"
version = "0.1.0"
edition = "2021"
publish = false

[dependencies]
notify = "*"
serde = { version = "1", features = ["derive"] }
serde_json = "1"
tokio = { version = "1", features = ["rt-multi-thread", "sync", "time", "fs", "macros"] }
tracing = "0.1"
uuid = { version = "1", features = ["v4"] }
