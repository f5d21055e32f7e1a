[package]
name = "naive_logger"
version = "0.1.0"
edition = "2021"
publish = false

[dependencies]
chrono = "0.4"
log = { version = "0.4", features = ["kv", "kv_serde"] }
serde = { version = "1", features = ["derive"] }
serde_json = "1"
serde_yaml = "*"
toml = "*"
