[package]
name = "font_atlas"
version = "0.1.0"
edition = "2021"
publish = false

[dependencies]
clap = { version = "4", features = ["derive"] }
image = "0.23"
imageproc = "0.22"
rusttype = "0.9"
