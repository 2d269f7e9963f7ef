[package]
name = "jinspect"
version = "0.1.0"
edition = "2021"
publish = false

[dependencies]
clap = "4"
memmap2 = "0.9"
