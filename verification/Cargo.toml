[package]
name = "deck_counter"
version = "0.1.0"
edition = "2021"
publish = false

[dependencies]
serde_json = "1"
serde = { version = "1", features = ["derive"] }
anyhow = "1"
tracing = "0.1"
const_format = "0.2"
