[package]
name = "dpf"
version = "0.1.0"
edition = "2021"
publish = false

[dependencies]
aes = "0.8"
rand = "0.8"
rand_chacha = "0.3"
