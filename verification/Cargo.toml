[package]
name = "ruxnasm"
version = "0.1.0"
edition = "2021"
publish = false

[dependencies]
codespan-reporting = "0.11.1"
