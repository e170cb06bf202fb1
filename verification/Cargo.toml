[package]
name = "twig"
version = "0.1.0"
edition = "2021"
publish = false

[dependencies]
anyhow = "1"
clap = { version = "4", features = ["derive"] }
crossterm = "0.28"
dirs = "6"
fuzzy-matcher = "0.3"
once_cell = "1"
ratatui = "0.29"
regex = "=1.13.1"
serde = { version = "1", features = ["derive"] }
serde_json = "1"
serde_yaml = "0.9"
shellexpand = "=3.1.2"
tui-tree-widget = "0.23"
