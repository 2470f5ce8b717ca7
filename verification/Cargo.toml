[package]
name = "track_rs"
version = "0.1.0"
edition = "2021"
publish = false

[dependencies]
anyhow = "1"
cpal = "0.15"
crossterm = "0.28"
fundsp = "0.20"
rand = "0.8"
ratatui = "0.29"
