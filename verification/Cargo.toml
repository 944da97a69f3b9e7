[package]
name = "perpetuals"
version = "0.1.0"
edition = "2021"
publish = false

[dependencies]
sp-arithmetic = "3.0.0"
