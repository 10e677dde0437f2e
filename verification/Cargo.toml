[package]
name = "soundboard"
version = "0.1.0"
edition = "2021"
publish = false

[dependencies]
color-eyre = "0.6"
crossterm = "0.27"
ratatui = "0.26"
rodio = "0.17"
