[package]
name = "qbjs_reader"
version = "0.1.0"
edition = "2021"
publish = false

[dependencies]
encoding = "*"
serde_json = "*"
