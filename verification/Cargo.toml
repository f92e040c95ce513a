[package]
name = "wasm-pack"
version = "0.5.0"
edition = "2021"
publish = false

[dependencies]
structopt = "0.2"
slog = "2"
indicatif = "*"
