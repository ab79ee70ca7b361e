[package]
name = "realms"
version = "0.1.0"
edition = "2021"
publish = false

[dependencies]
rand = "0.7"
noise = { version = "0.7", default-features = false }
ggez = "0.5"
