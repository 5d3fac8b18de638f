[package]
name = "tapelang"
version = "0.1.0"
edition = "2021"
publish = false

[dependencies]
inkwell = "*"
libc = "*"
