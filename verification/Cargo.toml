[package]
name = "git_poly"
version = "0.1.0"
edition = "2021"
publish = false

[dependencies]
regex = "1"
colored = "1"
