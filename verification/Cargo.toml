[package]
name = "scene_prep"
version = "0.1.0"
edition = "2021"
publish = false

[dependencies]
goth-gltf = "=0.3.2"
base64 = "=0.21.7"
arc-swap = "=1.9.2"
