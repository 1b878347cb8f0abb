[package]
name = "cutile"
version = "0.1.0"
edition = "2021"
publish = false

[dependencies]
anyhow = "1"
half = "2"
proc-macro2 = "1"
quote = "1"
stacker = "0.1"
syn = { version = "2", features = ["full", "extra-traits", "visit-mut", "printing", "parsing"] }
