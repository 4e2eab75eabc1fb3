[package]
name = "futuristic"
version = "0.4.0"
edition = "2021"
publish = false

[dependencies]
either = "1"
futures = "0.3"
pin-project = "1"
