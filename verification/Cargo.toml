[package]
name = "viurs"
version = "0.1.0"
edition = "2021"

[dependencies]
libflate = "1"
term_size = "0.3"
