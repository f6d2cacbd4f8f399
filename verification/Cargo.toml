[package]
name = "chronos"
version = "0.1.0"
edition = "2021"
publish = false

[dependencies]
dashmap = "6"
serde = { version = "1", features = ["derive"] }
serde_json = "1"
thiserror = "2"
tokio = { version = "1", features = ["fs", "rt", "macros"] }
async-trait = "0.1"
