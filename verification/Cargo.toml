[package]
name = "completion_client"
version = "0.1.0"
edition = "2021"
publish = false

[dependencies]
serde_json = "*"
tiktoken-rs = "*"
reqwest = { version = "*", default-features = false }
