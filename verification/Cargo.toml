[package]
name = "delegation"
version = "0.1.0"
edition = "2021"
publish = false

[dependencies]
async-trait = "=0.1.92"
getrandom = "=0.4.3"
chrono = { version = "=0.4.45", default-features = false, features = ["clock", "std", "serde"] }
serde = { version = "=1.0.229", features = ["derive"] }
serde_json = "=1.0.154"
tokio = { version = "=1.54.1", default-features = false, features = ["sync"] }
tracing = "=0.1.44"
uuid = { version = "=1.29.0", features = ["v4"] }
