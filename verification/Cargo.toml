[package]
name = "datafusion_encoding"
version = "0.1.0"
edition = "2021"
publish = false

[dependencies]
arrow = { version = "55", default-features = false }
arrow-buffer = "55"
base64 = "0.22"
datafusion-common = { version = "47", default-features = false }
datafusion-expr = { version = "47", default-features = false }
datafusion-macros = "47"
hex = "0.4"
