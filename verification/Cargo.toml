[package]
name = "acir_lowering"
version = "0.1.0"
edition = "2021"
publish = false

[dependencies]
rand = "0.8"
codespan-reporting = "0.11"
termcolor = "1"
clap = { version = "4", features = ["derive"] }
