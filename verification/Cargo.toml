[package]
name = "validate_fields_core"
version = "0.1.0"
edition = "2021"
publish = false

[dependencies]
quote = "1"
serde_yaml = "0.8"
syn = { version = "1", features = ["full"] }
