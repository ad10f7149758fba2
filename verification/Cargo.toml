[package]
name = "stable_array_list"
version = "0.1.0"
edition = "2021"
publish = false

[dependencies]
ic-stable-memory = "=0.2.6"
