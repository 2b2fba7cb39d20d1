[package]
name = "moxcms"
version = "0.1.0"
edition = "2021"
publish = false

[dependencies]
archmage = "*"
magetypes = "*"
num-traits = "*"
