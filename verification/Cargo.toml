[package]
name = "horse"
version = "0.1.0"
edition = "2021"
publish = false

[dependencies]
owo-colors = "*"
serde = { version = "*", features = ["derive"] }
serde_json = "*"
