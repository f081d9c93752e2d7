[package]
name = "git_http_backend"
version = "0.1.0"
edition = "2021"
publish = false

[dependencies]
conduit = "*"
flate2 = "1"
