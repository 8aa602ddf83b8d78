[package]
name = "dev_cleaner"
version = "0.1.0"
edition = "2021"
publish = false

[dependencies]
anyhow = "1"
chrono = { version = "0.4", features = ["serde"] }
clap = { version = "4", features = ["derive"] }
colored = "2"
crossbeam = "0.8"
crossterm = "0.28"
dirs = "5"
globset = "0.4"
ignore = "0.4"
indicatif = "0.17"
num_cpus = "1"
prettytable-rs = "0.10"
ratatui = "0.29"
rayon = "1"
serde = { version = "1", features = ["derive"] }
serde_json = "1"
toml = "0.8"
walkdir = "2"
