[package]
name = "mfform_lib"
version = "0.1.0"
edition = "2021"
publish = false

[dependencies]
anyhow = "1"
crossterm = "*"
log = "0.4"
log4rs = "1"
snailquote = "*"
