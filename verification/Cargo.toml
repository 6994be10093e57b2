[package]
name = "chunk_render"
version = "0.1.0"
edition = "2021"
publish = false

[dependencies]
anyhow = "1"
oxc_sourcemap = "*"
rayon = "1"
rustc-hash = "*"
sugar_path = "*"
