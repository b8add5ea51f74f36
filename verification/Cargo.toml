[package]
name = "path_genie"
version = "0.1.0"
edition = "2021"
publish = false

[dependencies]
clap = "4"
crossterm = "0.25"
tui = "0.19"
serde = { version = "1", features = ["derive"] }
serde_yaml = "0.9"
