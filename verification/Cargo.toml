[package]
name = "consensus"
version = "0.1.0"
edition = "2021"
publish = false

[dependencies]
base64 = "0.22"
im = "=15.1.0"
serde = { version = "=1.0.229", features = ["derive"] }
serde_json = "=1.0.154"
