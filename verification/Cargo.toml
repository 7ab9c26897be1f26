[package]
name = "typing_game"
version = "0.1.0"
edition = "2021"
publish = false

[dependencies]
rand = "0.8"
clap = { version = "3.2", default-features = false, features = ["std"] }
strum_macros = "0.24"
