[package]
name = "audio_normalizer"
version = "0.1.0"
edition = "2021"
publish = false

[dependencies]
ebur128 = "*"
lewton = "*"
