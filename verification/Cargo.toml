[package]
name = "sd"
version = "0.1.0"
edition = "2021"
publish = false

[dependencies]
ansi_term = "0.12"
clap = { version = "4", features = ["derive"] }
fancy-regex = "*"
memmap2 = "0.9"
rayon = "1"
regex = "1"
tempfile = "3"
unescape = "0.1"
