[package]
name = "oww_rust_core"
version = "0.1.0"
edition = "2021"
publish = false

[dependencies]
earshot = "=0.1.0"
shlex = "=2.0.1"
serde = { version = "=1.0.229", features = ["derive"] }
serde_yaml = "=0.9.34"
clap = { version = "=4.6.7", features = ["derive"] }
chrono = "=0.4.45"
wavers = "=1.5.1"
tract-onnx = "=0.23.8"
apodize = "=1.0.0"
