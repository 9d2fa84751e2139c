[package]
name = "deimos"
version = "0.1.0"
edition = "2021"
publish = false

[dependencies]
fastrand = "2"
termion = "*"
nucleo-matcher = "*"
serde = { version = "1", features = ["derive"] }
serde_json = "1"
toml = "*"
dirs = "*"
walkdir = "2"
lofty = "*"
symphonia = "*"
crossterm = "*"
ratatui = "*"
