[package]
name = "eipscanner"
version = "0.1.0"
edition = "2021"
publish = false

[dependencies]
bytes = "1"
thiserror = "2"
tracing = "0.1"
libc = "0.2"
