[package]
name = "simple_compose"
version = "0.1.0"
edition = "2021"
publish = false

[dependencies]
midir = "*"
rand = "0.8"
thiserror = "1"
