[package]
name = "bitset_strategy"
version = "0.1.0"
edition = "2021"
publish = false

[dependencies]
bit-set = "0.5"
rand = "0.5"
