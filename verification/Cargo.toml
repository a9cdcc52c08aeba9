[package]
name = "gripdl"
version = "0.1.0"
edition = "2021"
publish = false

[dependencies]
uuid = { version = "1", features = ["v4"] }
anyhow = "1"
serde = { version = "1", features = ["derive"] }
serde_json = "1"
tokio = { version = "1", features = ["rt-multi-thread", "macros", "sync", "time", "fs", "io-util", "io-std"] }
reqwest = { version = "*", default-features = false }
rusqlite = { version = "*", features = ["bundled"] }
parking_lot = "0.12"
