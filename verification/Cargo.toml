[package]
name = "cargo-rebuild-check"
version = "0.1.0"
edition = "2021"
publish = false

[dependencies]
cargo = "=0.86.0"
cargo-util = "=0.2.14"
clap = { version = "=2.34.0", default-features = false }
kstring = "=2.0.0"
rayon = "=1.12.0"
