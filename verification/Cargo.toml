[package]
name = "clip_paste"
version = "0.1.0"
edition = "2021"
publish = false

[dependencies]
arboard = "3"
enigo = "0.3"
