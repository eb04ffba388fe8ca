[package]
name = "gvpaint"
version = "0.1.0"
edition = "2021"
publish = false

[dependencies]
clearscreen = "*"
crossterm = "*"
image = { version = "*", default-features = false, features = ["png"] }
