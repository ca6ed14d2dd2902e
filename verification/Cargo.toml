[package]
name = "homepage"
version = "0.1.0"
edition = "2021"
publish = false

[dependencies]
serde = { version = "*", features = ["derive"] }
tiny_http = "*"
toml = "*"
