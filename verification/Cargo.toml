[package]
name = "voyager"
version = "0.1.0"
edition = "2021"
publish = false

[dependencies]
html2text = "*"
url = "*"
image = "*"
reqwest = { version = "*", default-features = false }
tokio = { version = "*", features = ["rt-multi-thread", "macros"] }
crossterm = "*"
ratatui = "*"
