[package]
name = "kronig_penney"
version = "0.1.0"
edition = "2021"
publish = false

[dependencies]
plotters = "*"
