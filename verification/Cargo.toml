[package]
name = "majjit"
version = "0.1.0"
edition = "2021"
publish = false

[dependencies]
shell-words = "1"
anyhow = "1"
ratatui = "*"
ansi-to-tui = "*"
