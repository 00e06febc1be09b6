[package]
name = "bs_filter"
version = "0.1.0"
edition = "2021"
publish = false

[dependencies]
boolean_expression = "*"
libc = "0.2"
eui48 = "*"
