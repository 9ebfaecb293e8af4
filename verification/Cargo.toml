[package]
name = "gifpipe"
version = "0.1.0"
edition = "2021"
publish = false

[dependencies]
engiffen = "=0.8.1"
getopts = "=0.2.24"
