[package]
name = "vantage"
version = "0.1.0"
edition = "2021"
publish = false

[dependencies]
anyhow = "1"
axum = "0.7"
aya = "0.13"
aya-ebpf = "0.1"
clap = { version = "4", features = ["derive", "env"] }
prometheus = { version = "0.14", default-features = false }
serde = { version = "1", features = ["derive"] }
serde_json = "1"
thiserror = "2"
tokio = { version = "1", features = ["full"] }
tracing = "0.1"
tracing-subscriber = "0.3"
