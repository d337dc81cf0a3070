[package]
name = "pallets"
version = "0.1.0"
edition = "2021"
publish = false

[dependencies]
sp-io = "*"
frame-support = "*"
frame-system = "*"
sp-runtime = "*"
sp-std = "*"
log = "*"
scale-info = "*"
serde = "*"
