[package]
name = "afuera"
version = "0.1.0"
edition = "2021"
publish = false

[dependencies]
macroquad = { version = "0.4", default-features = false }
macroquad-particles = "0.2"
quad-rand = "0.2"
quad-storage = "0.1"
log = "0.4"
