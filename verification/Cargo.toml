[package]
name = "presence"
version = "0.1.0"
edition = "2021"
publish = false

[dependencies]
chrono = "0.4"
fastly = "*"
rand = "0.8"
serde_json = "1"
svg = "*"
