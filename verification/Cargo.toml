[package]
name = "tableau"
version = "0.1.0"
edition = "2021"

[dependencies]
regex = "1"
unicode-width = "0.2"
