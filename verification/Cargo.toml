[package]
name = "runtime"
version = "0.1.0"
edition = "2021"
publish = false

[dependencies]
average = "=0.13.1"
bytes = "=0.4.12"
chrono = "=0.4.45"
csv = "=1.4.0"
futures = "=0.1.31"
log = "=0.4.34"
serde = { version = "=1.0.229", features = ["derive"] }
tokio-core = "=0.1.18"
tokio-io = "=0.1.13"
