[package]
name = "mtas"
version = "0.1.0"
edition = "2021"
publish = false

[dependencies]
triple_buffer = "*"
ringbuf = "*"
image = "*"
tokio = { version = "*", features = ["full"] }
tracing = "*"
tracing-subscriber = "*"
tracing-appender = "*"
anyhow = "*"
thiserror = "*"
adb_client = "*"
