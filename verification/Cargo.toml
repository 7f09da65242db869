[package]
name = "deet"
version = "0.1.0"
edition = "2021"
publish = false

[dependencies]
nix = { version = "*", features = ["ptrace", "signal", "process"] }
rustyline = "*"
crossbeam = "*"
crossbeam-channel = "*"
num_cpus = "*"
rand = "*"
