[package]
name = "tuifeed"
version = "0.1.0"
edition = "2021"
publish = false

[dependencies]
feed-rs = "*"
toml = "=1.1.7+spec-1.1.0"
