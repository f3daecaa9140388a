[package]
name = "lab_name_server"
version = "0.1.1"
edition = "2021"
publish = false

[dependencies]
hickory-proto = "0.25"
serde = { version = "1", features = ["derive"] }
serde_yaml = "0.9"
tokio = { version = "1", features = ["full"] }
clap = { version = "4", features = ["derive"] }
tracing = "0.1"
tracing-subscriber = { version = "0.3", features = ["env-filter"] }
anyhow = "1"
