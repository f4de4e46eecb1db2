[package]
name = "coven_core"
version = "0.1.0"
edition = "2021"
publish = false

[dependencies]
async-trait = "0.1"
chrono = "0.4"
futures-util = "0.3"
hex = "0.4"
rusqlite = { version = "*", features = ["bundled", "hooks"] }
serde = { version = "1", features = ["derive"] }
serde_json = { version = "1", features = ["raw_value"] }
sha2 = "*"
thiserror = "2"
tokio = { version = "1", features = ["rt", "rt-multi-thread", "sync", "fs", "io-util", "time", "macros"] }
tracing = "0.1"
