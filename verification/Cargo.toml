[package]
name = "tree_walk_rs"
version = "0.1.0"
edition = "2021"
publish = false

[dependencies]
anyhow = "1"
scopeguard = "1"
thiserror = "2"
