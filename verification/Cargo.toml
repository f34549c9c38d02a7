[package]
name = "rview"
version = "0.1.0"
edition = "2021"
publish = false

[dependencies]
anyhow = "1"
clap = { version = "4", features = ["derive"] }
crossterm = "*"
glam = "*"
gltf = "*"
rayon = "1"
stl_io = "*"
tobj = "*"
