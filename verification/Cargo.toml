[package]
name = "generate_raw"
version = "0.1.0"
edition = "2021"
publish = false

[dependencies]
heck = "=0.3.3"
witx = "=0.5.0"
