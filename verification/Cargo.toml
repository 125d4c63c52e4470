[package]
name = "linalg_kernel"
version = "0.1.0"
edition = "2021"
publish = false

[dependencies]
lax = "=0.16.0"
libc = "=0.2.191"
nalgebra = "=0.32.6"
ndarray = "=0.15.6"
ndarray-linalg = "=0.16.0"
pyo3 = { version = "=0.20.3", features = ["extension-module"] }
