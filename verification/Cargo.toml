[package]
name = "tablepower"
version = "0.1.0"
edition = "2021"
publish = false

[dependencies]
# `syn` and `quote` are built on `proc-macro2`. The library names nothing of
# it; the line holds its version and keeps its `proc-macro` feature off, so
# that text is read by its own lexer in every process.
proc-macro2 = { version = "=0.4.30", default-features = false }
quote = { version = "=0.6.13", default-features = false }
syn = { version = "=0.15.44", default-features = false, features = ["clone-impls", "derive", "parsing", "printing"] }
