[package]
name = "lazypost"
version = "0.1.0"
edition = "2021"
publish = false

[dependencies]
percent-encoding = "=2.3.2"
tui-input = "=0.15.5"
ratatui-textarea = "=0.9.4"
ratatui = "=0.30.2"
crossterm = "=0.29.0"
serde = { version = "=1.0.229", features = ["derive"] }
serde_json = "=1.0.154"
chrono = { version = "=0.4.45", features = ["serde"] }
uuid = { version = "=1.29.0", features = ["v4", "serde"] }
tokio = { version = "=1.54.1", features = ["rt-multi-thread", "sync", "fs", "time"] }
reqwest = { version = "=0.12.28", default-features = false, features = ["json", "cookies", "multipart", "rustls-tls"] }
