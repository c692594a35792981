[package]
name = "authserv"
version = "0.1.0"
edition = "2021"
publish = false

[dependencies]
rust-argon2 = "*"
hex = "*"
rand = "0.8"
