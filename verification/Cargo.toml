[package]
name = "deferred"
version = "0.1.0"
edition = "2021"
publish = false

[dependencies]
async-channel = "*"
async-lock = "*"
async-io = "*"
futures-lite = "*"
