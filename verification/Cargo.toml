[package]
name = "dodge_shooter"
version = "0.1.0"
edition = "2021"
publish = false

[dependencies]
rand = "0.9"
macroquad = { version = "0.4", features = ["audio"] }
