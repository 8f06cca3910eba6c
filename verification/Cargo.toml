[package]
name = "aitodo"
version = "0.1.0"
edition = "2021"
publish = false

[dependencies]
chrono = { version = "0.4", features = ["serde"] }
uuid = { version = "1", features = ["v4"] }
rusqlite = { version = "0.31", features = ["chrono"] }
serde = { version = "1", features = ["derive"] }
serde_json = "1"
