[package]
name = "icy"
version = "0.1.0"
edition = "2021"
publish = false

[dependencies]
anyhow = "1"
chrono = { version = "0.4", features = ["serde"] }
clap = { version = "4", features = ["derive"] }
crossterm = "0.28"
env_logger = "0.11"
log = "0.4"
nix = { version = "0.29", features = ["user"] }
ratatui = "0.29"
serde = { version = "1", features = ["derive"] }
serde_yaml = "0.9"
tui-input = "0.11"
which = "6"
