[package]
name = "cargo_pup"
version = "0.1.0"
edition = "2021"
publish = false

[dependencies]
regex = "=1.13.1"
serde = { version = "=1.0.229", features = ["derive"] }
serde_json = "=1.0.154"
ron = "=0.12.3"
anyhow = "=1.0.104"
cargo_metadata = "=0.23.1"
serde_yaml = "=0.9.34"
tempfile = "=3.27.0"
