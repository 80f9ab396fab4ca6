[package]
name = "augur_workspace"
version = "0.1.0"
edition = "2021"
publish = false

[dependencies]
chrono = "0.4"
dirs = "6"
anyhow = "1"
log = "0.4"
