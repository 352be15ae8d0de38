[package]
name = "embedded_ffi"
version = "0.1.0"
edition = "2021"
publish = false

[dependencies]
cstr_core = "*"
