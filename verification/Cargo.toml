[package]
name = "ascii_art"
version = "0.1.0"
edition = "2021"
publish = false

[dependencies]
clap = { version = "4", features = ["derive"] }
crossterm = "0.27"
ffmpeg-next = "6"
image = "0.24"
ratatui = "0.26"
rodio = "0.17"
