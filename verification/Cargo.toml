[package]
name = "ivl_verifier"
version = "0.1.0"
edition = "2021"
publish = false

[dependencies]
smtlib = "=0.4.0"
tracing = "=0.1.44"
