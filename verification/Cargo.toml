[package]
name = "decompress"
version = "0.1.0"
edition = "2021"
publish = false

[dependencies]
regex = "1"
tar = "0.4"
flate2 = "1"
path-absolutize = "*"
