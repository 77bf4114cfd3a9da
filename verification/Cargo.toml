[package]
name = "http_auth_basic"
version = "0.1.0"
edition = "2021"
publish = false

[dependencies]
base64 = "0.13"
