[package]
name = "man_with"
version = "0.1.0"
edition = "2021"
publish = false

[dependencies]
clap = "2"
env_logger = "0.7"
failure = "0.1"
libc = "0.2"
serde = "1"
serde_derive = "1"
serde_json = "1"
shellexpand = "2"
terminal_size = "0.1"
termion = "1.5"
walkdir = "2"
