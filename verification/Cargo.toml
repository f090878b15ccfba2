[package]
name = "postgres_derive_codegen"
version = "0.1.0"
edition = "2021"
publish = false

[dependencies]
postgres = "0.19"
bytes = "1"
