[package]
name = "nasdedup_core"
version = "0.1.0"
edition = "2021"
publish = false

[dependencies]
blake3 = { version = "1", features = ["pure"] }
globset = "0.4"
serde = { version = "1", features = ["derive"] }
thiserror = "1"
toml = "0.8"
