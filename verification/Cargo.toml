[package]
name = "catalog_validator"
version = "0.1.0"
edition = "2021"
publish = false

[dependencies]
hex = "0.4"
semver = "1"
serde = { version = "1", features = ["derive"] }
serde_json = "1"
reqwest = { version = "0.12", default-features = false, features = ["blocking", "rustls-tls"] }
