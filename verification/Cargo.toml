[package]
name = "niwa_rs"
version = "0.1.0"
edition = "2021"
publish = false

[dependencies]
cgmath = "=0.16.1"
gl = "0.14"
glutin = "0.19"
image = "0.19"
lazy_static = "1"
