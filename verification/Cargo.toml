[package]
name = "pool_of_threads"
version = "0.1.0"
edition = "2021"
publish = false

[dependencies]
crossbeam = "0.8"
rand = "0.9"
