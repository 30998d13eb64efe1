[package]
name = "loro_time_travel"
version = "0.1.0"
edition = "2021"
publish = false

[dependencies]
loro = "*"
