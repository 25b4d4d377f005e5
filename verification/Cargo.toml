[package]
name = "datasurgeon"
version = "1.1.5"
edition = "2021"
publish = false

[dependencies]
regex = "1"
clap = "4"
walkdir = "2"
