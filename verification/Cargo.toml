[package]
name = "rusty_rich"
version = "0.1.0"
edition = "2021"
publish = false

[dependencies]
unicode-width = "*"
regex = "*"
crossterm = "*"
chrono = "*"
terminal_size = "*"
serde_json = "*"
pulldown-cmark = "*"
log = "*"
once_cell = "*"
