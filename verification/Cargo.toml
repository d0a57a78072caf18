[package]
name = "clockmill"
version = "0.1.0"
edition = "2021"
publish = false

[dependencies]
burn-tensor = { version = "=0.19.1", default-features = false }
