[package]
name = "ssimulacra2"
version = "0.6.0"
edition = "2021"
publish = false

[dependencies]
anyhow = "1"
image = { version = "0.25", default-features = false, features = ["png"] }
rayon = "1"
yuvxyb = "0.4"
