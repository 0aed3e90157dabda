[package]
name = "cruft_crawler"
version = "0.1.0"
edition = "2021"
publish = false

[dependencies]
chrono = "*"
encoding_rs = "*"
clap = { version = "*", features = ["derive"] }
walkdir = "*"
llama-cpp-2 = "*"
