[package]
name = "randmockery"
version = "0.1.0"
edition = "2021"
publish = false

[dependencies]
rand = "0.4"
nix = { version = "0.29", features = ["ptrace", "process", "signal"] }
libc = "0.2"
clap = "2"
prctl = "1"
