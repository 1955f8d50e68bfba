[package]
name = "jsona_openapi"
version = "0.1.0"
edition = "2021"
publish = false

[dependencies]
jsona = "*"
serde_json = { version = "*", features = ["preserve_order"] }
serde_yaml = "*"
