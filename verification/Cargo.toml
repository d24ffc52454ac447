[package]
name = "cheetah_signaling"
version = "0.1.0"
edition = "2021"
publish = false

[dependencies]
uuid = { version = "1", features = ["v5", "v7"] }
subtle = "2"
serde_json = "1"
serde = { version = "1", features = ["derive"] }
url = "2"
csv = "1"
