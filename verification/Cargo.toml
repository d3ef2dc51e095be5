[package]
name = "sixtyfps"
version = "0.1.0"
edition = "2021"
publish = false

[dependencies]
font-kit = "0.10"
winit = "0.22"
lyon = "0.16"
glow = "0.6"
image = { version = "0.23", default-features = false, features = ["png"] }
pathfinder_geometry = "0.5"
