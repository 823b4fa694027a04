[package]
name = "neural_net"
version = "0.1.0"
edition = "2021"

[dependencies]
nannou = { version = "0.19", default-features = false }
