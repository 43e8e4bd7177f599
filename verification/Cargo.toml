[package]
name = "codex_session"
version = "0.1.0"
edition = "2021"
publish = false

[dependencies]
ratatui = { version = "=0.29.0", features = ["unstable-rendered-line-info"] }
serde = { version = "=1.0.229", features = ["derive"] }
serde_json = "=1.0.154"
sha2 = "=0.10.9"
thiserror = "=2.0.21"
tokio = { version = "=1.54.1", features = ["fs", "io-util", "sync", "time"] }
toml = "=0.9.12"
unicode-width = "=0.2.0"
url = "2"
uuid = { version = "=1.29.0", features = ["v4"] }
