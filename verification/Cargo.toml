[package]
name = "simple_dao"
version = "0.1.0"
edition = "2021"
publish = false

[dependencies]
ink = { version = "=6.0.0-beta.1", default-features = false }
