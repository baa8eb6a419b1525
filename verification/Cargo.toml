[package]
name = "barbells"
version = "0.1.0"
edition = "2021"

[dependencies]
macroquad = { version = "*", default-features = false }
quad-rand = "*"
