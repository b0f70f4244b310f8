[package]
name = "svg_halftone"
version = "0.1.0"
edition = "2021"
publish = false

[dependencies]
rand = { version = "0.8", features = ["small_rng"] }
image = "0.24"
structopt = "0.3"
