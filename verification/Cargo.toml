[package]
name = "sht"
version = "0.1.0"
edition = "2021"
publish = false

[dependencies]
fuzzy-matcher = "0.3"
crossterm = "*"
tui = "0.19"
csv = "1"
serde = { version = "1", features = ["derive"] }
serde_json = "1"
structopt = "0.3"
log = "0.4"
env_logger = "0.10"
atty = "0.2"
once_cell = "1"
