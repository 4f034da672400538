[package]
name = "candles_cache"
version = "0.1.0"
edition = "2021"
publish = false

[dependencies]
ahash = "0.8"
chrono = "0.4"
num_enum = "0.7"
serde = { version = "1", features = ["derive"] }
serde_derive = "1"
serde_repr = "0.1"
serde_with = { version = "3", features = ["chrono_0_4"] }
tokio = { version = "1", features = ["sync"] }
