[package]
name = "rexpl"
version = "0.1.0"
edition = "2021"
publish = false

[dependencies]
regex = "*"
regex-syntax = "*"
clap = { version = "*", features = ["derive"] }
crossterm = "*"
env_logger = "*"
log = "*"
ratatui = "*"
tui-input = "*"
