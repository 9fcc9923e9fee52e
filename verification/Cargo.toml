[package]
name = "ambient_runtime"
version = "0.1.0"
edition = "2021"
publish = false

[dependencies]
anyhow = "=1.0.104"
bytes = "=1.12.1"
flume = "=0.11.1"
futures = "=0.3.34"
glam = "=0.24.2"
proc-macro2 = { version = "=1.0.107", default-features = false }
quote = { version = "=1.0.47", default-features = false }
reqwest = { version = "=0.11.27", default-features = false }
tokio = { version = "=1.54.1", features = ["io-util", "rt"] }
tracing = "=0.1.44"
url = "=2.5.8"
uuid = { version = "=1.29.0", features = ["v4"] }
