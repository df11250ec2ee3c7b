[package]
name = "yew-callbacks"
version = "0.1.0"
edition = "2021"
publish = false

[dependencies]
heck = "0.4"
proc-macro-error = "1"
proc-macro2 = "1"
quote = "1"
syn = "1"
