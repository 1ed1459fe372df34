[package]
name = "sojourn"
version = "0.1.0"
edition = "2021"
publish = false

[dependencies]
anyhow = "1"
clap = { version = "4", features = ["derive"] }
crossterm = "0.28"
dirs = "5"
fuzzy-matcher = "0.3"
glob = "0.3"
ipnet = "2"
ratatui = "0.29"
rayon = "1"
regex = "1"
serde = { version = "1", features = ["derive"] }
serde_json = "1"
serde_yaml = "0.9"
shellexpand = "3"
toml = "0.8"
walkdir = "2"
