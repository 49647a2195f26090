[package]
name = "sandbox-rs"
version = "0.2.0"
edition = "2021"
publish = false

[dependencies]
libc = "0.2"
log = "0.4"
nix = { version = "0.30", features = ["fs", "process", "sched", "signal", "user"] }
