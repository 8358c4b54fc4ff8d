[package]
name = "reorient_search"
version = "0.1.0"
edition = "2021"
publish = false

[dependencies]
cubesim = "*"
clap = { version = "*", features = ["derive"] }
