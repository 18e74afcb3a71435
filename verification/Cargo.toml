[package]
name = "dactyl"
version = "0.1.0"
edition = "2021"
publish = false

[dependencies]

[dev-dependencies]
fastrand = "2"
num-format = "0.4"
