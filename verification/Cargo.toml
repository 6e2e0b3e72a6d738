[package]
name = "rvim"
version = "0.1.0"
edition = "2021"
publish = false

[dependencies]
ropey = "1"
crossterm = "0.28"
syntect = { version = "5", default-features = false, features = ["default-fancy"] }
