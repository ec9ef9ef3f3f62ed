[package]
name = "vsched"
version = "0.1.0"
edition = "2021"
publish = false

[dependencies]
heapless = "0.9"
spin = "0.10"
lazyinit = "0.2"
vdso_helper = "*"
