[package]
name = "pixel_machine"
version = "0.1.0"
edition = "2021"
publish = false

[dependencies]
image = "=0.25.10"
rayon = "=1.12.0"
serde = { version = "=1.0.229", features = ["derive"] }
serde_json = "=1.0.151"
