[package]
name = "contra_nes"
version = "0.1.0"
edition = "2021"
publish = false

[dependencies]
cpal = "0.15"
libc = "0.2"
minifb = "0.27"
