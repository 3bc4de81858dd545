[package]
name = "tenon"
version = "0.1.0"
edition = "2021"
publish = false

[dependencies]
regex = "1"
shlex = "1"
rand = "0.9"
serde = { version = "1", features = ["derive"] }
serde_json = "1"
serde_yaml = "0.9"
toml = "0.8"
globset = "0.4"
ignore = "0.4"
base64 = "0.22"
image = { version = "0.25", default-features = false, features = ["png", "jpeg", "gif", "webp", "bmp"] }
