[package]
name = "handmade"
version = "0.1.0"
edition = "2021"
publish = false

[dependencies]
winapi = "0.2.8"
kernel32-sys = "0.2.2"
user32-sys = "0.2.0"
gdi32-sys = "0.2.0"
libc = "0.2"
