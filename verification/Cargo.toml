[package]
name = "mozjs_vendor"
version = "0.1.0"
edition = "2021"
publish = false

[dependencies]
tempfile = "3"
