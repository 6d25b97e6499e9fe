[package]
name = "clauncher"
version = "0.1.0"
edition = "2021"
publish = false

[dependencies]
fuzzy-matcher = "*"
meval = "*"
urlencoding = "*"
walkdir = "*"
directories = "*"
open = "*"
serde = { version = "*", features = ["derive"] }
