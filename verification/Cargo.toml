[package]
name = "magneturi"
version = "0.1.0"
edition = "2021"

[dependencies]
url = "2"
