[package]
name = "ralphx"
version = "0.1.0"
edition = "2021"
publish = false

[dependencies]
serde_json = "1"
serde = { version = "1", features = ["derive"] }
serde_yaml = "0.9"
chrono = { version = "0.4", default-features = false, features = ["clock", "std"] }
uuid = { version = "1", features = ["v4"] }
tokio = { version = "1", default-features = false, features = ["sync", "io-util", "process", "rt", "macros"] }
