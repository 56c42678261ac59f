[package]
name = "context_info"
version = "0.1.0"
edition = "2021"
publish = false

[dependencies]
cached = { version = "=0.51.4", default-features = false }
once_cell = "=1.21.4"
regex = "=1.13.1"
rust-ini = "=0.21.3"
yaml-rust = "=0.4.5"
