[package]
name = "adaptive_engine"
version = "0.1.0"
edition = "2021"
publish = false

[dependencies]
rand = "=0.8.8"
thiserror = "=1.0.69"
