[package]
name = "adamant_vm"
version = "0.1.0"
edition = "2021"
publish = false

[dependencies]
bcs = "0.1"
serde = "1"
