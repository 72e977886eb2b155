[package]
name = "rust_tree_walk"
version = "0.1.0"
edition = "2021"
publish = false

[dependencies]
clap = "*"
rustc_apfloat = "*"
