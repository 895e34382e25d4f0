[package]
name = "fuzzy_logic_engine_rs"
version = "0.1.0"
edition = "2021"
publish = false

[dependencies]
thiserror = "1"
