[package]
name = "powdr"
version = "0.1.0"
edition = "2021"
publish = false

[dependencies]
log = "0.4"
mktemp = "0.5"
walkdir = "2"
