[package]
name = "testsuite"
version = "0.1.0"
edition = "2021"
publish = false

[dependencies]
anyhow = "*"
chrono = "*"
clap = { version = "*", features = ["derive"] }
crossterm = { version = "*", features = ["event-stream"] }
futures = "*"
futures-timer = "*"
indexmap = "*"
log = "*"
nanohttp = "*"
serde = { version = "*", features = ["derive"] }
simplelog = "*"
tokio = { version = "*", features = ["full"] }
