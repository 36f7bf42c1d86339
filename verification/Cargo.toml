[package]
name = "ucelofka"
version = "0.1.0"
edition = "2021"
publish = false

[dependencies]
anyhow = "1"
serde_yaml = "0.9"
tera = { version = "1", default-features = false }
