[package]
name = "rust_interface"
version = "0.1.0"
edition = "2021"
publish = false

[dependencies]
exonum = "1.0.0"
