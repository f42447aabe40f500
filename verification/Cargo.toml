[package]
name = "conway"
version = "0.1.0"
edition = "2021"
publish = false

[dependencies]
arrayfire = "=3.8.0"
half = "=1.8.3"
