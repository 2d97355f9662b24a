[package]
name = "clireader"
version = "0.1.0"
edition = "2021"
publish = false

[dependencies]
ansi_term = "=0.12.1"
clap = { version = "=4.6.7", features = ["derive"] }
dirs = "=5.0.1"
epub = "=1.2.4"
html2text = "0.17"
serde = { version = "=1.0.229", features = ["derive"] }
serde_json = "=1.0.154"
