[package]
name = "rustup"
version = "0.1.0"
edition = "2021"
publish = false

[dependencies]
toml = "*"
sha2 = "*"
