[package]
name = "rec"
version = "0.1.0"
edition = "2021"
publish = false

[dependencies]
base58 = "*"
url = "*"
serde = { version = "*", features = ["derive"] }
serde_json = "*"
clap = { version = "*", features = ["derive"] }
