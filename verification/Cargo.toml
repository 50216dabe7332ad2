[package]
name = "delegated_enum"
version = "0.1.0"
edition = "2021"
publish = false

[dependencies]
convert_case = "*"
