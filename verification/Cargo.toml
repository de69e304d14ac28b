[package]
name = "model_baker"
version = "0.1.0"
edition = "2021"
publish = false

[dependencies]
gfx-hal = "*"
gltf = "*"
