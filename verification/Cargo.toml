[package]
name = "bevy_space"
version = "0.1.0"
edition = "2021"
publish = false

[dependencies]
bevy = { version = "0.14", default-features = false }
rand = "0.8"
