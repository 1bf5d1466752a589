[package]
name = "vqa_parser"
version = "0.1.0"
edition = "2021"
publish = false

[dependencies]
nom = "7"
bitflags = "1"
