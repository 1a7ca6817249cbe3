[package]
name = "fractal_core"
version = "0.1.0"
edition = "2021"
publish = false

[dependencies]
hex = "*"
base64 = "*"
image = { version = "*", default-features = false, features = ["png"] }
num = "*"
serde = { version = "*", features = ["derive"] }
dirs = "*"
