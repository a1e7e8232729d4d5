[package]
name = "points_service"
version = "0.1.0"
edition = "2021"
publish = false

[dependencies]
password-auth = "*"
rand_chacha = "*"
rand_core = "*"
