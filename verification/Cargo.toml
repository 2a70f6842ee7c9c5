[package]
name = "quadratic_voting"
version = "0.1.0"
edition = "2021"
publish = false

[dependencies]
rand = "0.6.5"
rand_chacha = "0.1.1"
