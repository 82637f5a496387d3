[package]
name = "upright"
version = "0.1.0"
edition = "2021"
publish = false

[dependencies]
mecab = "*"
opencv = "*"
