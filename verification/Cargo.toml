[package]
name = "langmuir"
version = "0.1.0"
edition = "2021"
publish = false

[dependencies]
csv = "*"
charming = "*"

[dev-dependencies]
polyfit-rs = "*"
