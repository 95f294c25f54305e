[package]
name = "atletiek_nu_api"
version = "0.1.0"
edition = "2021"
publish = false

[dependencies]
scraper = "*"
regex = "1"
chrono = { version = "0.4", features = ["serde"] }
dashmap = "6"
urlencoding = "2"
leaky-bucket = "1"
serde = { version = "1", features = ["derive"] }
serde_json = "1"
tokio = { version = "1", features = ["rt-multi-thread", "macros", "time"] }
reqwest = { version = "0.12", default-features = false, features = ["rustls-tls"] }
anyhow = "1"
log = "0.4"
rocket = { version = "0.5", features = ["json"] }
