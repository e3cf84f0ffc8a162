[package]
name = "denial_compositor"
version = "0.1.0"
edition = "2021"
publish = false

[dependencies]
smithay = { version = "*", default-features = false }
tracing = "0.1"
