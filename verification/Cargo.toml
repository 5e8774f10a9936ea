[package]
name = "content_engine"
version = "0.1.0"
edition = "2021"
publish = false

[dependencies]
rand = "0.8"
bcrypt = "*"
chrono = "*"
uuid = { version = "1", features = ["v4"] }
serde_json = "1"
