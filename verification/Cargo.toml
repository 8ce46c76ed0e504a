[package]
name = "liminal"
version = "0.1.0"
edition = "2021"
publish = false

[dependencies]
rand = "=0.9.5"
glam = "=0.30.10"
noise = "=0.9.0"
kira = { version = "=0.10.8", default-features = false, features = ["mp3", "wav"] }
anyhow = "1"
log = "0.4"
rustc-hash = "2"
