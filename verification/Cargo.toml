[package]
name = "spread_shm"
version = "0.1.0"
edition = "2021"
publish = false

[dependencies]
memmap2 = "*"
anyhow = "*"
serde = { version = "*", features = ["derive"] }
serde_json = "*"
bincode = "1"
toml = "*"
chrono = "*"
