[package]
name = "slack_tui"
version = "0.1.0"
edition = "2021"
publish = false

[dependencies]
futures = "=0.1.31"
mio = "=0.6.23"
mio-more = "=0.1.0"
reqwest = { version = "=0.10.10", features = ["blocking"] }
rustbox = "=0.11.0"
serde_json = "=1.0.154"
slack_api = { version = "=0.23.1", features = ["reqwest_blocking"] }
tokio-core = "=0.1.18"
websocket = "=0.27.1"
