[package]
name = "decent_serde_json_alternative"
version = "0.1.0"
edition = "2021"
publish = false

[dependencies]
json = "*"
