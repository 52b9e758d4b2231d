[package]
name = "shuttle_config"
version = "0.1.0"
edition = "2021"
publish = false

[dependencies]
anyhow = "=1.0.104"
chrono = { version = "=0.4.45", features = ["serde"] }
dirs = "=5.0.1"
serde = { version = "=1.0.229", features = ["derive"] }
shuttle-common = "=0.48.2"
toml = "=0.8.23"
