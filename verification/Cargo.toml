[package]
name = "raint"
version = "1.0.0"
edition = "2021"
publish = false

[dependencies]
crossterm = "*"
ratatui = "*"
