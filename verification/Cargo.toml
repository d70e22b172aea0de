[package]
name = "portlist"
version = "0.1.0"
edition = "2021"
publish = false

[dependencies]
procfs = "*"
users = "*"
clap = { version = "*", features = ["derive"] }
crossterm = "0.25"
tui = "0.19"
