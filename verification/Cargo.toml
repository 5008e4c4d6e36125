[package]
name = "skelvox"
version = "0.1.0"
edition = "2021"
publish = false

[dependencies]
dot_vox = "*"
gltf = "1"
bevy = { version = "0.15", default-features = false }
