[package]
name = "tinyrenderer"
version = "0.1.0"
edition = "2021"
publish = false

[dependencies]
image = { version = "*", default-features = false, features = ["tga"] }
nalgebra = { version = "*", default-features = false, features = ["std"] }
obj-rs = "*"
piston_window = "*"
