[package]
name = "softrender"
version = "0.1.0"
edition = "2021"
publish = false

[dependencies]
image = { version = "*", default-features = false, features = ["tga", "png"] }
nalgebra = { version = "*", default-features = false, features = ["std"] }
obj-rs = "*"
show-image = "*"
