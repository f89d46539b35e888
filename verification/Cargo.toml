[package]
name = "sc_plugin"
version = "0.1.0"
edition = "2021"
publish = false

[dependencies]
fastxml = "*"
image = "*"
serde_json = "*"
zip = "*"
