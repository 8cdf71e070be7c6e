[package]
name = "rooch_db"
version = "0.1.0"
edition = "2021"
publish = false

[dependencies]
anyhow = "1"
prometheus = { version = "0.13", default-features = false }
