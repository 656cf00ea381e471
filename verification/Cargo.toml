[package]
name = "toplevel"
version = "0.1.0"
edition = "2021"

[dependencies]
prolog_parser = "=0.7.18"
num = "0.2"
