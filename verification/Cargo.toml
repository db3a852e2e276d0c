[package]
name = "libcme"
version = "0.1.0"
edition = "2021"
publish = false

[dependencies]
ahash = "0.8.12"
iset = "0.3.3"
thiserror = "2.0.21"
