[package]
name = "debug-et-diagnostics"
version = "0.1.0"
edition = "2021"
publish = false

[dependencies]
ansi_colours = { version = "*", default-features = false }
colorsys = "*"
ioctl-term-light = "*"
