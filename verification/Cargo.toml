[package]
name = "cloudflare"
version = "0.1.0"
edition = "2021"
publish = false

[dependencies]
chrono = { version = "0.4", default-features = false, features = ["serde", "std", "clock"] }
reqwest = { version = "0.12", default-features = false, features = ["blocking", "json", "multipart"] }
serde = { version = "1", features = ["derive"] }
serde_json = "1"
serde_with = "3"
url = "2"
