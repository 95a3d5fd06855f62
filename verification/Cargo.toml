[package]
name = "imagene"
version = "0.1.0"
edition = "2021"
publish = false

[dependencies]
image = "0.23"
imageproc = "0.22"
rusttype = "0.9"
colored = "2"
