[package]
name = "otters"
version = "0.1.0"
edition = "2021"
publish = false

[dependencies]
arrow = { version = "*", default-features = false }
crossbeam-channel = "*"
parquet = { version = "*", default-features = false, features = ["arrow", "snap"] }
pyo3 = "*"
