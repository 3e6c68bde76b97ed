[package]
name = "texagent"
version = "0.1.0"
edition = "2021"
publish = false

[dependencies]
serde_json = "1"
uuid = { version = "1", features = ["v4"] }
sha2 = "0.10"
similar = "2"
