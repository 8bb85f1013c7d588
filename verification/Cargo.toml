[package]
name = "rbf_scatter"
version = "0.1.0"
edition = "2021"
publish = false

[dependencies]
noisy_float = "=0.2.1"
