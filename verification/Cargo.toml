[package]
name = "parse_helper"
version = "0.1.0"
edition = "2021"
publish = false

[dependencies]
icu_properties = { version = "1.5", features = ["compiled_data"] }
