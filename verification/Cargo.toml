[package]
name = "ec"
version = "0.1.0"
edition = "2021"
publish = false

[dependencies]
getopts = "0.2"
log = "0.4"
simplelog = "*"
text_io = "*"
