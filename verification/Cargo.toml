[package]
name = "mdpdf"
version = "0.1.0"
edition = "2021"
publish = false

[dependencies]
clap = "3"
printpdf = "0.7"
