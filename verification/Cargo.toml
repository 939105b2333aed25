[package]
name = "libtest_mimic"
version = "0.1.0"
edition = "2021"
publish = false

[dependencies]
clap = { version = "3.2", features = ["derive"] }
termcolor = "1"
threadpool = "1"
