[package]
name = "hdim"
version = "0.1.0"
edition = "2021"
publish = false

[dependencies]
kamadak-exif = "*"
image = "*"
ratatui = "*"
crossterm = "*"
ansi-to-tui = "*"
color-eyre = "*"
