[package]
name = "cot_macros"
version = "0.1.0"
edition = "2021"
publish = false

[dependencies]
darling = "=0.21.3"
proc-macro-crate = "=3.5.0"
proc-macro2 = "=1.0.107"
syn = { version = "=2.0.119", features = ["full", "extra-traits"] }
unicode-ident = "=1.0.27"
