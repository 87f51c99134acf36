[package]
name = "kitties"
version = "0.1.0"
edition = "2021"
publish = false

[dependencies]
parity-scale-codec = { version = "3", features = ["derive"] }
frame-support = "*"
frame-system = "*"
sp-io = "*"
sp-runtime = "*"
sp-std = "*"
