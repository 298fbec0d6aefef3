[package]
name = "solana_memecoin_db"
version = "0.1.0"
edition = "2021"
publish = false

[dependencies]
rusqlite = { version = "*", features = ["bundled"] }

[dev-dependencies]
tempfile = "*"
