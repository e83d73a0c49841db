[package]
name = "fnr"
version = "0.1.0"
edition = "2021"
publish = false

[dependencies]
anyhow = "1"
atty = "0.2"
clap = { version = "3", features = ["derive"] }
grep = "0.2"
ignore = "0.4"
num_cpus = "1"
regex = "1"
termcolor = "1"
text_io = "0.1"
