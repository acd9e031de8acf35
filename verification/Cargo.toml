[package]
name = "koda"
version = "0.1.0"
edition = "2021"
publish = false

[dependencies]
rlua = "*"
rustyline = "*"
colored = "*"
open = "*"
