[package]
name = "substratum"
version = "0.1.0"
edition = "2021"
publish = false

[dependencies]
flate2 = "=1.1.10"
noodles-bgzf = "=0.52.0"
bitcode = "=0.6.9"
lock_api = "0.4"
