[package]
name = "lattice_cli"
version = "0.1.0"
edition = "2021"
publish = false

[dependencies]
unicode-width = "0.2"
sha2 = "0.10"
chrono = "0.4"
dirs = "6"
serde = { version = "1", features = ["derive"] }
serde_json = "1"
toml = "*"
toml_edit = "*"
pulldown-cmark = { version = "0.13", default-features = false }
clap = { version = "4", features = ["derive"] }
anyhow = "1"
colored = "*"
crossterm = "*"
ratatui = "*"
tokio = { version = "1", features = ["rt-multi-thread", "macros", "sync", "time"] }
dotenvy = "0.15"
base64 = "0.22"
similar = "2"
syntect = { version = "5", default-features = false, features = ["default-fancy"] }
