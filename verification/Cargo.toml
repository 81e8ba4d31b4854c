[package]
name = "spv_writer"
version = "0.1.0"
edition = "2021"
publish = false

[dependencies]
spirv_headers = "=1.5.0"
thiserror = "=1.0.69"
