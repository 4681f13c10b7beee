[package]
name = "bongo_display"
version = "0.1.0"
edition = "2021"
publish = false

[dependencies]
itoa = "1"
resvg = "*"
