[package]
name = "spirv_abi"
version = "0.1.0"
edition = "2021"
publish = false

[dependencies]
rspirv = "0.9.0"
