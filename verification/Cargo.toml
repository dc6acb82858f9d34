[package]
name = "aria"
version = "0.2.0"
edition = "2021"
publish = false

[dependencies]
serde_json = { version = "1", features = ["float_roundtrip"] }
serde = { version = "1", features = ["derive"] }
clap = { version = "4", features = ["derive"] }
env_logger = "0.11"
num-complex = "0.4"
pyo3 = { version = "0.22", features = ["abi3-py38", "extension-module"] }
