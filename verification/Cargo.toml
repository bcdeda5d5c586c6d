[package]
name = "snesmaker"
version = "0.1.0"
edition = "2021"
publish = false

[dependencies]
anyhow = "1"
camino = { version = "1", features = ["serde1"] }
ron = "0.8"
serde = { version = "1", features = ["derive"] }
serde_json = "1"
