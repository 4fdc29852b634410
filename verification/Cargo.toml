[package]
name = "acoustic_coupler"
version = "0.1.0"
edition = "2021"
publish = false

[dependencies]
itertools-num = "0.1"
itertools = "0.10"
hound = "3"
