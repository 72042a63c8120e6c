[package]
name = "pruner"
version = "0.1.0"
edition = "2021"
publish = false

[dependencies]
walkdir = "*"
pretty-bytes = "*"
