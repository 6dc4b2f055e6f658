[package]
name = "parsearch"
version = "0.1.0"
edition = "2021"
publish = false

[dependencies]
regex = "*"
rayon = "*"
clap = { version = "*", features = ["derive"] }
colored = "*"
indicatif = "*"
memmap2 = "*"
