[package]
name = "s4lib"
version = "0.1.0"
edition = "2021"
publish = false

[dependencies]
chrono = "0.4"
lru = "0.12"
flate2 = "1"
lzma-rs = "0.3"
tar = "0.4"
encoding_rs = "0.8"
mime_guess = "2"
mime = "0.3"
mime-sniffer = "*"
rangemap = "1"
rand = "0.8"
walkdir = "2"
itertools = "0.10"
