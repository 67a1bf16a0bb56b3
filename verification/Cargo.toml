[package]
name = "chip-8"
version = "0.1.0"
edition = "2021"

[dependencies]
rand = "0.8"
getopts = "0.2"
easycurses = "*"
