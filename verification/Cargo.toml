[package]
name = "lotisa"
version = "0.1.0"
edition = "2021"
publish = false

[dependencies]
rand = "0.8"
rand_hc = "0.3"
colored = "2"
regex = "1"
