[package]
name = "cargo_list"
version = "0.1.0"
edition = "2021"
publish = false

[dependencies]
pad = "0.1"
toml = "0.1"
rustc-serialize = "0.3"
curl = "0.2"
