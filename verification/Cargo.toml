[package]
name = "hayate"
version = "0.1.0"
edition = "2021"
publish = false

[dependencies]
anyhow = "1"
compact_str = "*"
crossterm = { version = "*", features = ["event-stream"] }
jwalk = "0.8"
ratatui = "*"
thiserror = "*"
tokio = { version = "1", features = ["full"] }
tokio-stream = "0.1"
tokio-util = "0.7"
