[package]
name = "rs_pedalboard"
version = "0.1.0"
edition = "2021"
publish = false

[dependencies]
chrono = "0.4"
tracing-subscriber = "0.3"
serde = { version = "1", features = ["derive"] }
serde_json = "1"
