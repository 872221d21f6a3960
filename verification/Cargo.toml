[package]
name = "cargo-wipe"
version = "0.1.0"
edition = "2021"
publish = false

[dependencies]
anyhow = "=1.0.104"
bytesize = "=2.7.0"
crossterm = "=0.28.1"
ratatui = "=0.29.0"
rayon = "=1.12.0"
walkdir = "=2.5.0"
