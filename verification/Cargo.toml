[package]
name = "camera"
version = "0.1.0"
edition = "2021"

[dependencies]
nalgebra = "*"
