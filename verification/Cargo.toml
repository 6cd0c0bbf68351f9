[package]
name = "mdmigrate"
version = "0.1.0"
edition = "2021"
publish = false

[dependencies]
anyhow = "1"
rnix = "0.10"
tempfile = "3"
threadpool = "1"
