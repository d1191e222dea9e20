[package]
name = "suika"
version = "0.1.0"
edition = "2021"
publish = false

[dependencies]
rand = "=0.8.8"
bevy = { version = "=0.12.1", default-features = false }
bevy_rapier2d = { version = "=0.23.0", default-features = false, features = ["dim2", "headless"] }
