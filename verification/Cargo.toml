[package]
name = "inventory"
version = "0.1.0"
edition = "2021"
publish = false

[dependencies]
mongodb = { version = "=2.8.2", features = ["tokio-sync"] }
chrono = "0.4"
serde = { version = "1", features = ["derive"] }
serde_json = "1"
