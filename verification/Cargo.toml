[package]
name = "avance"
version = "0.1.0"
edition = "2021"
publish = false

[dependencies]
crossterm = { version = "*", default-features = false }
once_cell = "*"
