[package]
name = "elevgrid"
version = "0.1.0"
edition = "2021"
publish = false

[dependencies]
anyhow = "*"
image = "*"
isahc = "*"
memmap2 = "*"
