[package]
name = "nuklear_backend_glium"
version = "0.1.0"
edition = "2021"
publish = false

[dependencies]
glium = "*"
nuklear-rust = "*"
