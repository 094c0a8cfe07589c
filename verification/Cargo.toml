[package]
name = "atiff"
version = "0.1.0"
edition = "2021"
publish = false

[dependencies]
flate2 = "=1.1.10"
weezl = "=0.2.1"
jpeg-decoder = { version = "=0.3.2", features = ["platform_independent"] }
