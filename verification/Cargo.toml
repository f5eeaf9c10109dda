[package]
name = "http_byte_range"
version = "0.1.0"
edition = "2021"
publish = false

[dependencies]
axum-core = "0.5"
bytes = "1"
http = "1"
thiserror = "2"
