[package]
name = "marquee"
version = "0.1.0"
edition = "2021"
publish = false

[dependencies]
embedded-graphics = { version = "=0.6.0-alpha.2", features = ["bmp"] }
rpi-led-matrix = "=0.4.0"
