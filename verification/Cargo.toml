[package]
name = "dprint_plugin_jupyter"
version = "0.1.0"
edition = "2021"
publish = false

[dependencies]
jsonc-parser = "*"
serde_json = "*"
