[package]
name = "i_physics"
version = "0.1.0"
edition = "2021"
publish = false

[dependencies]
i_float = "*"
