[package]
name = "livemarkdown"
version = "0.1.0"
edition = "2021"
publish = false

[dependencies]
comrak = "*"
axum = "*"
tokio = { version = "*", features = ["full"] }
notify = "*"
notify-debouncer-mini = "*"
async-stream = "*"
tokio-stream = "*"
