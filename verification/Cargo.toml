[package]
name = "socha_client"
version = "0.1.0"
edition = "2021"
publish = false

[dependencies]
quick-xml = "*"
log = "*"
