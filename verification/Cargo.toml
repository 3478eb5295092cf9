[package]
name = "ez-video-capture-core"
version = "0.2.0"
edition = "2021"
publish = false

[dependencies]
rsmpeg = "*"
pyo3 = "*"
