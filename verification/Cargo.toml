[package]
name = "ridelog"
version = "0.1.0"
edition = "2021"
publish = false

[dependencies]
anyhow = "1"
chrono = "0.4"
crossterm = "0.25"
fitparser = "*"
rusqlite = { version = "*", features = ["bundled"] }
tui = "0.19"
