[package]
name = "pdf_render"
version = "0.1.0"
edition = "2021"
publish = false

[dependencies]
base64 = "=0.22.1"
krilla = "=0.8.2"
krilla-svg = "=0.8.1"
parley = { version = "=0.12.0", default-features = false, features = ["std"] }
serde = { version = "=1.0.229", features = ["derive"] }
skrifa = "=0.42.1"
usvg = "=0.47.0"
