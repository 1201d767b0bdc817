[package]
name = "dtop"
version = "0.1.0"
edition = "2021"
publish = false

[dependencies]
bollard = { version = "*", features = ["ssl"] }
chrono = "0.4"
crossterm = "*"
futures-util = "0.3"
ratatui = "*"
tokio = { version = "1", features = ["rt", "rt-multi-thread", "sync", "time"] }
tracing = "0.1"
unicode-width = "0.2"
