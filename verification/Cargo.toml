[package]
name = "ids_rs"
version = "0.1.0"
edition = "2021"
publish = false

[dependencies]
dashmap = "6"
regex = "1"
chrono = "0.4"
anyhow = "1"
colored = "2"
lettre = { version = "0.11", default-features = false, features = ["builder", "smtp-transport", "tokio1", "tokio1-rustls-tls"] }
serde = { version = "1", features = ["derive"] }
tokio = { version = "1", features = ["full"] }
toml = "0.8"
tracing = "0.1"
tracing-subscriber = { version = "0.3", features = ["env-filter"] }
