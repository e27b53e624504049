[package]
name = "reactive_transform"
version = "0.1.0"
edition = "2021"
publish = false

[dependencies]
swc_core = { version = "*", features = ["ecma_plugin_transform"] }
