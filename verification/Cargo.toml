[package]
name = "rust_event_engine"
version = "0.1.0"
edition = "2021"

[dependencies]
env_logger = "0.11"
log = "0.4"
pyo3 = { version = "0.26", features = ["extension-module", "abi3-py39"] }
shared_memory = "0.12"
