[package]
name = "rt"
version = "0.1.0"
edition = "2021"
publish = false

[dependencies]
serde_json = "*"
serde_yaml = "*"
swc_common = "*"
swc_ecma_ast = "*"
swc_ecma_parser = "*"
