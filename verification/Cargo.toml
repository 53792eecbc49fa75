[package]
name = "imaging"
version = "0.1.0"
edition = "2021"
publish = false

[dependencies]
peniko = "*"
kurbo = "*"
wgpu = "*"
vello = "*"
vello_common = "*"
vello_hybrid = "*"
skia-safe = "*"
