[package]
name = "achievement_parser"
version = "0.1.0"
edition = "2021"
publish = false

[dependencies]
rust-ini = "*"

[dev-dependencies]
tempfile = "*"
