[package]
name = "nannou"
version = "0.1.0"
edition = "2021"
publish = false

[dependencies]
cpal = "0.8"
sample = "0.10"
vulkano = "0.11"
