[package]
name = "voltage"
version = "0.1.0"
edition = "2021"
publish = false

[dependencies]
clap = { version = "=4.6.7", features = ["derive"] }
cranelift = "=0.133.3"
cranelift-jit = "=0.133.3"
cranelift-module = "=0.133.3"
