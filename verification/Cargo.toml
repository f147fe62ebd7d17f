[package]
name = "exercises"
version = "0.1.0"
edition = "2021"
publish = false

[dependencies]
rand = "0.7"
structopt = "0.3"
structopt-derive = "0.4"
