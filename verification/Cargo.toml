[package]
name = "rs_agent"
version = "0.1.0"
edition = "2021"
publish = false

[dependencies]
base64 = "=0.22.1"
ratatui = "=0.30.2"
crossterm = "=0.29.0"
serde = { version = "=1.0.229", features = ["derive"] }
serde_json = "=1.0.154"
pulldown-cmark = "=0.13.6"
syntect = { version = "=5.3.0", default-features = false, features = ["default-fancy"] }
regex = "=1.13.1"
globset = "0.4"
walkdir = "2"

[dev-dependencies]
tempfile = "=3.27.0"
