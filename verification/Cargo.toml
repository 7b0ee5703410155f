[package]
name = "streaming_data_loader"
version = "0.1.0"
edition = "2021"
publish = false

[dependencies]
chrono = "*"
chrono-tz = "*"
csv = "*"
reqwest = { version = "*", default-features = false, features = ["json"] }
serde = { version = "*", features = ["derive"] }
serde_json = "*"
tokio = { version = "*", features = ["full"] }
tokio-stream = { version = "*", features = ["sync"] }
tracing = "*"
tracing-subscriber = "*"
tracing-appender = "*"
notify-debouncer-mini = "*"
governor = "*"
axum = "*"
tower-http = { version = "*", features = ["cors"] }
rand = "*"
fs2 = "*"
