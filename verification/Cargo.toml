[package]
name = "xcavate"
version = "0.1.0"
edition = "2021"
publish = false

[dependencies]
serde = { version = "=1.0.229", features = ["derive"] }
serde_json = "=1.0.154"
sp-core = "=43.0.0"
sp-arithmetic = "*"
