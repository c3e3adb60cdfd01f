[package]
name = "blueprint_core"
version = "0.1.0"
edition = "2021"
publish = false

[dependencies]
reqwest = { version = "*", default-features = false }
hyper = { version = "*", default-features = false }
serde_json = "*"
