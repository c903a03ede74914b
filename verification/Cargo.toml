[package]
name = "recomp3ds"
version = "0.1.0"
edition = "2021"

[dependencies]
libloading = "0.8"
