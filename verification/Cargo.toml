[package]
name = "xwiki"
version = "0.1.0"
edition = "2021"
publish = false

[dependencies]
markdown = "1"
base64 = "0.22"
serde = { version = "1", features = ["derive"] }
serde_json = "1"
reqwest = { version = "0.12", default-features = false, features = ["json", "cookies", "multipart", "rustls-tls"] }
tokio = { version = "1", features = ["rt-multi-thread"] }
chrono = "0.4"
