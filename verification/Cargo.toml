[package]
name = "blue_ledger"
version = "0.1.0"
edition = "2021"
publish = false

[dependencies]
rusqlite = { version = "*", features = ["bundled"] }
csv = "*"
chrono = "*"
serde = { version = "*", features = ["derive"] }
