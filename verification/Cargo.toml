[package]
name = "eslint_config"
version = "0.1.0"
edition = "2021"
publish = false

[dependencies]
serde_json = { version = "=1.0.151", features = ["preserve_order"] }
mime_guess = "=2.0.5"
