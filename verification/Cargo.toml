[package]
name = "devin_sessions"
version = "0.1.0"
edition = "2021"
publish = false

[dependencies]
anyhow = "1"
dirs = "*"
rusqlite = { version = "*", features = ["bundled"] }
serde_json = "1"
tracing = "0.1"
