[package]
name = "google_signin"
version = "0.1.0"
edition = "2021"
publish = false

[dependencies]
cache_control = "*"
jsonwebtoken = "7"
reqwest = { version = "0.11", features = ["json"] }
serde = { version = "1", features = ["derive"] }
serde_json = "1"
tokio = { version = "1", features = ["sync"] }
