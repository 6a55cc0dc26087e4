[package]
name = "interval_index"
version = "0.1.0"
edition = "2021"
publish = false

[dependencies]
rstar = "=0.12.2"
rand = "=0.8.8"
rand_chacha = "=0.3.1"
