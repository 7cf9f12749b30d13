[package]
name = "turm"
version = "0.1.0"
edition = "2021"
publish = false

[dependencies]
ratatui = "0.30"
crossterm = "0.29"
tui-input = "*"
regex = "1"
crossbeam = "0.8"
notify = "8"
clap = { version = "4", features = ["derive"] }
