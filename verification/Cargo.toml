[package]
name = "token_bucket"
version = "0.1.0"
edition = "2021"
publish = false

[dependencies]
time = "*"

[dev-dependencies]
crossbeam = "*"
