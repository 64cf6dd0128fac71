[package]
name = "rust_tikz"
version = "0.1.0"
edition = "2021"
publish = false

[dependencies]
anyhow = "1"
dvi = "*"
dvi2html = "*"
flate2 = "1"
tar = "0.4"
wasmi = "0.31"
wasm-minimal-protocol = "*"
