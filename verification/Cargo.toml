[package]
name = "galemind"
version = "0.1.0"
edition = "2021"
publish = false

[dependencies]
ndarray = "*"
nalgebra = "*"
tokio = { version = "1", features = ["full"] }
axum = "*"
clap = { version = "4", features = ["derive"] }
serde = { version = "1", features = ["derive"] }
serde_yaml = "*"
serde_json = "1"
tracing = "0.1"
tracing-subscriber = "0.3"
anyhow = "1"
async-trait = "0.1"
dashmap = "*"
rand = "0.8"
tower-http = { version = "*", features = ["trace"] }
