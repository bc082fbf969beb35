[package]
name = "dialogue_syntax"
version = "0.1.0"
edition = "2021"
publish = false

[dependencies]
base64 = "0.22"
clap = { version = "4", features = ["derive"] }
ron = "0.8"
serde = { version = "1", features = ["derive"] }
serde_json = "1"
serde-pickle = "1"
serde_yaml = "0.9"
toml = "0.8"
