[package]
name = "matrixkit"
version = "0.1.0"
edition = "2021"
publish = false

[dependencies]
serde = { version = "=1.0.229", features = ["derive"] }
serde_json = "=1.0.154"
chrono = "=0.4.45"
sysinfo = { version = "0.32", default-features = false, features = ["system"] }
