[package]
name = "camera"
version = "0.5.0"
edition = "2021"
publish = false

[dependencies]
turbojpeg = "1"
serde_json = "1"
thiserror = "2"
