[package]
name = "volt"
version = "0.1.0"
edition = "2021"
publish = false

[dependencies]
anyhow = "=1.0.104"
clap = { version = "=4.6.7", features = ["derive"] }
crossterm = "=0.29.0"
dirs = "=7.0.0"
ratatui = "=0.30.2"
serde_json = { version = "=1.0.151", features = ["arbitrary_precision"] }
tempfile = "=3.27.0"
