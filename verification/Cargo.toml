[package]
name = "move_mutator"
version = "0.1.0"
edition = "2021"
publish = false

[dependencies]
rand = "0.8"
diffy = "*"
anyhow = "*"
clap = { version = "4", features = ["derive"] }
serde = { version = "1", features = ["derive"] }
serde_json = "1"
tempfile = "*"
walkdir = "*"
fs_extra = "*"
