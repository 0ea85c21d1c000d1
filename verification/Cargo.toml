[package]
name = "blockfall"
version = "0.1.0"
edition = "2021"
publish = false

[dependencies]
clap = { version = "3", features = ["derive"] }
crossterm = "0.25"
rand = "0.8"
