[package]
name = "simulator"
version = "0.1.0"
edition = "2021"
publish = false

[dependencies]
itertools = "0.10"
serde = { version = "1", features = ["derive"] }
serde_arrays = "0.1"
serde_yaml = "0.9"
clap = { version = "4", features = ["derive"] }
glam = "0.24"
miniquad = "0.3"
image = { version = "0.24", default-features = false, features = ["png", "jpeg"] }
