[package]
name = "compactor"
version = "0.1.0"
edition = "2021"
publish = false

[dependencies]
image = "*"
anyhow = "*"
clap = { version = "*", features = ["cargo"] }
simple_logger = "*"
even_bigger_s = "*"
