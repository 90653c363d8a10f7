[package]
name = "create_broken_files"
version = "3.1.0"
edition = "2021"
publish = false

[dependencies]
clap = { version = "4", features = ["derive"] }
jwalk = "0.8"
rand = "0.8"
rayon = "1"
