[package]
name = "srch"
version = "0.1.0"
edition = "2021"
publish = false

[dependencies]
ansi_term = "0.9"
docopt = "0.6"
regex = "0.1"
rustc-serialize = "0.3"
time = "0.1"
