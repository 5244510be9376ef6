[package]
name = "netdash"
version = "0.1.0"
edition = "2021"
publish = false

[dependencies]
anyhow = "1"
crossterm = "0.27"
ratatui = "0.23"
sysinfo = { version = "0.29", default-features = false }
