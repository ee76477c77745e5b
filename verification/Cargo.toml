[package]
name = "vord"
version = "0.1.0"
edition = "2021"
publish = false

[dependencies]
globset = "=0.4.21"
ignore = "=0.4.34"
serde = { version = "=1.0.229", features = ["derive"] }
serde_json = "1"
toml = "=1.1.8"
anyhow = "=1.0.104"
thiserror = "=2.0.21"
