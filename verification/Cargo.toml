[package]
name = "tracktui"
version = "0.1.0"
edition = "2021"
publish = false

[dependencies]
color-eyre = "0.6"
crossterm = "0.28"
csv = "1"
ratatui = "0.29"
