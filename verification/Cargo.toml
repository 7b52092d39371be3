[package]
name = "ascii_art"
version = "0.1.0"
edition = "2021"
publish = false

[dependencies]
clap = "2"
fontdue = "*"
image = "0.24"
packer = "*"
