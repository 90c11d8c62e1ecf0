[package]
name = "http_request"
version = "0.1.0"
edition = "2021"
publish = false

[dependencies]
async-std = "1"
pin-project-lite = "0.2"
