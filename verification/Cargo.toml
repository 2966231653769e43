[package]
name = "hmm"
version = "0.1.0"
edition = "2021"
publish = false

[dependencies]
argh = "0.1"
dirs = "6"
libc = "0.2"
