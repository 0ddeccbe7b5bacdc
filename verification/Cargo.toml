[package]
name = "golden"
version = "0.1.0"
edition = "2021"
publish = false

[dependencies]
dissimilar = "1"
flate2 = "1"
colored = "*"
eyre = "0.6"
tempfile = "3"
