[package]
name = "mdr"
version = "0.1.0"
edition = "2021"
publish = false

[dependencies]
crossterm = "*"
dirs = "*"
notify = "*"
ratatui = "*"
serde = { version = "*", features = ["derive"] }
toml = "*"
unicode-width = "*"
