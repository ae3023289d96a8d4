[package]
name = "jar"
version = "0.1.0"
edition = "2021"
publish = false

[dependencies]
caps = "0.5"
flate2 = "1"
libc = "0.2"
libseccomp = "0.3"
nix = { version = "0.29", features = ["sched", "mount", "signal", "process", "user", "fs"] }
tar = "0.4"
