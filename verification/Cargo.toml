[package]
name = "tadoru"
version = "0.1.0"
edition = "2021"
publish = false

[dependencies]
clap = { version = "4", features = ["derive"] }
crossterm = "*"
ctrlc = "*"
directories = "*"
ignore = "0.4"
nucleo = "0.5"
ratatui = "*"
serde = { version = "1", features = ["derive"] }
serde_json = "1"
toml = "*"
unicode-width = "0.2"
