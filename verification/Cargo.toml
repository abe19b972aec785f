[package]
name = "retis"
version = "0.1.0"
edition = "2021"
publish = false

[dependencies]
elf = "*"
btf-rs = "*"
libbpf-rs = "*"
libbpf-sys = "*"
anyhow = "*"
clap = { version = "*", features = ["derive"] }
