[package]
name = "cover_art"
version = "0.1.0"
edition = "2021"
publish = false

[dependencies]
urlencoding = "2"
clap = { version = "4", features = ["derive"] }
reqwest = { version = "0.12", default-features = false, features = ["blocking", "json", "rustls-tls"] }
serde_json = "1"
