[package]
name = "name_it"
version = "0.1.0"
edition = "2021"
publish = false

[dependencies]
syn = { version = "1", features = ["full", "visit-mut", "extra-traits"] }
quote = "1"
proc-macro2 = "1"
elain = "0.3"
