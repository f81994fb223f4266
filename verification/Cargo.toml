[package]
name = "gauge"
version = "0.1.0"
edition = "2021"
publish = false

[dependencies]
unidiff = "0.3"
serde = { version = "1", features = ["derive"] }
serde_json = "1"
clap = { version = "4", features = ["derive"] }
crossterm = "0.28"
ratatui = "0.29"
throbber-widgets-tui = "0.8"
syntect = { version = "5", default-features = false, features = ["default-fancy"] }
thiserror = "2"
chrono = "0.4"
dirs = "6"
