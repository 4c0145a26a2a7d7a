[package]
name = "lila-gif"
version = "0.1.0"
edition = "2021"
publish = false

[dependencies]
bytes = "=1.12.1"
gift = "=0.13.0"
ndarray = "=0.17.2"
shakmaty = "=0.26.0"
