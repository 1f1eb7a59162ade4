[package]
name = "terminalist"
version = "0.7.3"
edition = "2021"
publish = false

[dependencies]
chrono = "=0.4.45"
ratatui = "=0.29.0"
uuid = { version = "=1.29.0", features = ["v4"] }
serde = { version = "=1.0.229", features = ["derive"] }
serde_json = "=1.0.154"
reqwest = { version = "0.12", default-features = false, features = ["blocking", "json", "rustls-tls"] }
