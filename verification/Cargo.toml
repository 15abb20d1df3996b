[package]
name = "afe"
version = "0.1.0"
edition = "2021"
publish = false

[dependencies]
bincode = "2"
serde = { version = "1", features = ["derive"] }
