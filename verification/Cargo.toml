[package]
name = "shutdown_helper"
version = "0.1.0"
edition = "2021"
publish = false

[dependencies]
httparse = "1"
constant_time_eq = "*"
anyhow = "1"
axum = "*"
dotenvy = "*"
log = "0.4"
serde = { version = "1", features = ["derive"] }
simplelog = "*"
system_shutdown = "*"
tokio = { version = "1", features = ["rt-multi-thread", "macros", "net"] }
toml = "*"
tracing = "0.1"
windows-service = "*"
