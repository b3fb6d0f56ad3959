[package]
name = "gifc"
version = "0.1.0"
edition = "2021"
publish = false

[dependencies]
atty = "*"
clap = "*"
fontdue = "*"
gif = "*"
gifski = "*"
imgref = "*"
rgb = "*"
