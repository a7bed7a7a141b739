[package]
name = "mcpg-plugin-reliability-circuit-breaker"
version = "0.1.0"
edition = "2021"
publish = false

[dependencies]
dashmap = "6"
metrics = "0.24"
serde = { version = "1", features = ["derive"] }
serde_json = "1"
tracing = "0.1"
