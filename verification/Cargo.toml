[package]
name = "matter"
version = "0.1.0"
edition = "2021"
publish = false

[dependencies]
hkdf = "*"
sha2 = "*"
rand = "*"
