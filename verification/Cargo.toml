[package]
name = "ezpz"
version = "0.1.0"
edition = "2021"
publish = false

[dependencies]
faer = "0.23"
libm = "0.2"
