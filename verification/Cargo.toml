[package]
name = "explorer"
version = "0.1.0"
edition = "2021"
publish = false

[dependencies]
tar = "*"
crossterm = "*"
tempfile = "*"
anyhow = "*"
