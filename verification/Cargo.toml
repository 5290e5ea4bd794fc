[package]
name = "fiet_maker_policy"
version = "0.1.0"
edition = "2021"
publish = false

[dependencies]
sha3 = "*"
k256 = "*"
