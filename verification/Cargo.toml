[package]
name = "imk"
version = "0.1.0"
edition = "2021"
publish = false

[dependencies]
chrono = { version = "0.4", default-features = false, features = ["clock"] }
getopts = "0.2"
inotify = { version = "0.10", default-features = false }
nix = "0.26"
