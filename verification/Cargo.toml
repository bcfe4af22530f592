[package]
name = "memlens"
version = "0.1.0"
edition = "2021"
publish = false

[dependencies]
bytemuck = "*"
pelite = "=0.10.0"
