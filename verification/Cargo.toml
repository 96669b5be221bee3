[package]
name = "binary_cache"
version = "0.1.0"
edition = "2021"
publish = false

[dependencies]
flate2 = "1"
tar = "0.4"
ureq = "2"
