[package]
name = "globalenv"
version = "0.1.0"
edition = "2021"
publish = false

[dependencies]
winreg = "=0.10.1"
