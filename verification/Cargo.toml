[package]
name = "helios_api"
version = "0.1.0"
edition = "2021"
publish = false

[dependencies]
mime_guess = "2"
uuid = { version = "1", features = ["v4"] }
tokio = { version = "1", features = ["fs", "rt", "macros"] }
tracing = "0.1"
serde = { version = "1", features = ["derive"] }
serde_json = "1"
