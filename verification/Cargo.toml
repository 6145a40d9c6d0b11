[package]
name = "btf_types"
version = "0.1.0"
edition = "2021"
publish = false

[dependencies]
anyhow = "1"
libbpf-sys = "*"
scroll = "0.11"
