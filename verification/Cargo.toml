[package]
name = "telemetry_ingest"
version = "0.1.0"
edition = "2021"
publish = false

[dependencies]
serde_json = "1"
serde = { version = "1", features = ["derive"] }
rusqlite = "*"
ctrlc = "3"
