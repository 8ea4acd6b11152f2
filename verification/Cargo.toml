[package]
name = "looper"
version = "0.1.0"
edition = "2021"
publish = false

[dependencies]
hound = "3.5"
crossbeam = "0.8"
kittyaudio = "*"
