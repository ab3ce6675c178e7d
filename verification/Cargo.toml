[package]
name = "closet_cad"
version = "0.1.0"
edition = "2021"
publish = false

[dependencies]
rust_decimal = { version = "*", features = ["maths"] }
rust_decimal_macros = "*"
eframe = { version = "*", default-features = false, features = ["glow", "x11", "default_fonts"] }
