[package]
name = "netscanner"
version = "0.1.0"
edition = "2021"
publish = false

[dependencies]
ping = "=0.5.2"
threadpool = "=1.8.1"
