[package]
name = "diffx_bridge"
version = "0.6.1"
edition = "2021"
publish = false

[dependencies]
diffx-core = "=0.6.1"
pyo3 = "=0.22.6"
regex = "=1.13.1"
serde_json = "=1.0.154"
