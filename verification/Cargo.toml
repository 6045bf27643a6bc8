[package]
name = "postmark"
version = "0.1.0"
edition = "2021"
publish = false

[dependencies]
http = "*"
serde = { version = "1", features = ["derive"] }
serde_json = "1"
typed-builder = "*"
