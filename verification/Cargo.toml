[package]
name = "breadx"
version = "0.1.0"
edition = "2021"
publish = false

[dependencies]
nix = { version = "*", features = ["socket", "uio"] }
async-io = "*"
futures-io = "*"
syn = "*"
proc-macro2 = "*"
