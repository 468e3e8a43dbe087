[package]
name = "crosslink"
version = "0.1.0"
edition = "2021"
publish = false

[dependencies]
anyhow = "1"
chrono = "0.4"
crossterm = "*"
ratatui = "*"
serde = { version = "1", features = ["derive"] }
serde_json = "1"
sha2 = "0.10"
ulid = "1"
uuid = { version = "1", features = ["v4"] }
