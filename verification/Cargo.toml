[package]
name = "entity_handle"
version = "0.1.0"
edition = "2021"
publish = false

[dependencies]
crossbeam-channel = "*"
async-channel = "*"
serde_json = "*"
serde_yaml = "*"
