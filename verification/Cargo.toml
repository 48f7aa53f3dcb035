[package]
name = "cdma_bts"
version = "0.1.0"
edition = "2021"
publish = false

[dependencies]
num-complex = "0.4"
rustfft = "6"
log = "0.4"
