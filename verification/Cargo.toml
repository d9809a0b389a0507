[package]
name = "qsim"
version = "0.1.0"
edition = "2021"

[dependencies]
nalgebra = { version = "0.32", default-features = false, features = ["std"] }
num-traits = "0.2"
rand = "0.8"
