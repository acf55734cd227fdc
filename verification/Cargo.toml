[package]
name = "surreal_photos"
version = "0.1.0"
edition = "2021"
publish = false

[dependencies]
base64 = "0.22.1"
dirs = "5.0.1"
image = "0.25"
log = "0.4"
ravif = { version = "0.11.20", default-features = false }
rgb = "0.8"
rusqlite = "0.32.1"
