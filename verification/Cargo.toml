[package]
name = "moveos_views"
version = "0.1.0"
edition = "2021"
publish = false

[dependencies]
anyhow = "1"
bcs = "0.1"
hex = "0.4"
schemars = "0.8"
serde = { version = "1", features = ["derive"] }
serde_yaml = "0.9"
sha3 = "0.10"
