[package]
name = "mago"
version = "0.1.0"
edition = "2021"
publish = false

[dependencies]
foldhash = "*"
globset = "*"
itertools = "*"
notify = "*"
tracing = "*"
