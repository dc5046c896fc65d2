[package]
name = "v2xw_metrics"
version = "0.1.0"
edition = "2021"
publish = false

[dependencies]
arrow = { version = "*", default-features = false, features = ["ipc"] }
serde = { version = "1", features = ["derive"] }
serde_json = "1"
thiserror = "2"
