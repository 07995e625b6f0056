[package]
name = "u64_id"
version = "0.1.0"
edition = "2021"
publish = false

[dependencies]
rand = "0.9"
serde = "1"

[dev-dependencies]
serde_json = "1"
