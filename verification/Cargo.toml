[package]
name = "mento_core"
version = "0.1.0"
edition = "2021"
publish = false

[dependencies]
hex = "*"
hmac = "*"
sha2 = "*"
serde = { version = "*", features = ["derive"] }
serde_json = "*"
chrono = "*"
tokio = { version = "*", features = ["rt", "macros"] }
reqwest = { version = "*", default-features = false, features = ["json", "rustls-tls"] }
