[package]
name = "git-repos"
version = "0.1.0"
edition = "2021"
publish = false

[dependencies]
clap = { version = "4", features = ["derive"] }
color-eyre = "0.6"
crossterm = { version = "*", features = ["event-stream"] }
dirs = "*"
futures = "0.3"
ratatui = "*"
serde = { version = "1", features = ["derive"] }
serde_yaml = "0.9"
tokio = { version = "1", features = ["full"] }
toml = "*"
walkdir = "2"
