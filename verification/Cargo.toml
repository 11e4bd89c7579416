[package]
name = "civitai_tui"
version = "0.1.0"
edition = "2021"
publish = false

[dependencies]
time = { version = "=0.3.55", features = ["formatting", "local-offset"] }
serde = { version = "=1.0.229", features = ["derive"] }
serde_json = "=1.0.154"
crossterm = "=0.28.1"
ratatui = "=0.29.0"
anyhow = "=1.0.104"
html2text = "*"
