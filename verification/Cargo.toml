[package]
name = "flipper_tui"
version = "0.1.0"
edition = "2021"
publish = false

[dependencies]
anyhow = "1"
async-trait = "0.1"
bytes = "1"
clap = { version = "4", features = ["derive"] }
crossterm = "0.28"
futures = "0.3"
ratatui = "0.29"
serde = { version = "1", features = ["derive"] }
serialport = { version = "4", default-features = false }
thiserror = "1"
tokio = { version = "1", features = ["rt", "macros", "sync", "time"] }
tracing-subscriber = { version = "0.3", features = ["env-filter"] }
