[package]
name = "dribble"
version = "0.1.0"
edition = "2021"
publish = false

[dependencies]
base64 = "0.21"
serde = { version = "1", features = ["derive"] }
serde_json = "1"
futures = "0.3"
