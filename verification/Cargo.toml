[package]
name = "casr"
version = "0.1.0"
edition = "2021"
publish = false

[dependencies]
anyhow = "1"
chrono = "0.4"
dirs = "*"
rusqlite = { version = "*", features = ["bundled"] }
serde_json = "1"
sha2 = "0.10"
tracing = "0.1"
uuid = { version = "1", features = ["v4"] }
which = "*"
