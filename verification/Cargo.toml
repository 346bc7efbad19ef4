[package]
name = "http-cache-semantics"
version = "0.1.0"
edition = "2021"
publish = false

[dependencies]
http = "=0.2.12"
chrono = { version = "=0.4.45", default-features = false, features = ["std", "alloc"] }
reqwest = { version = "=0.11.27", default-features = false }
serde = { version = "=1.0.229", features = ["derive"] }
http-serde = "1"
