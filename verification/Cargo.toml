[package]
name = "multiplexer"
version = "0.1.0"
edition = "2021"
publish = false

[dependencies]
anyhow = "1"
crossterm = "0.29"
log = { version = "0.4", features = ["std"] }
portable-pty = "0.9"
ratatui = "*"
vt100 = "0.16"
