[package]
name = "bcrypt-small"
version = "0.2.0"
edition = "2021"
publish = false

[dependencies]
bcrypt-only = "=0.3.1"
getrandom = { version = "=0.2.17", features = ["std"] }
