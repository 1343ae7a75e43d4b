[package]
name = "sticky_key"
version = "0.1.0"
edition = "2021"
publish = false

[dependencies]
embassy-time = { version = "*", features = ["std"] }
rmk-types = "*"
