[package]
name = "arc_devtools"
version = "0.1.0"
edition = "2021"
publish = false

[dependencies]
anyhow = "=1.0.104"
dirs = "=5.0.1"
serde_json = { version = "=1.0.154", features = ["float_roundtrip"] }
