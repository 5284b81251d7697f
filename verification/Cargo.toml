[package]
name = "psquare"
version = "0.1.0"
edition = "2021"
publish = false

[dependencies]
simple-error = "=0.3.3"
