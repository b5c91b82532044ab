[package]
name = "elephantry_lints"
version = "0.1.0"
edition = "2021"
publish = false

[dependencies]
regex = "1"
elephantry = "*"
clippy_utils = "*"
dylint_linting = "*"
