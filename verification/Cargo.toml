[package]
name = "rusqlite_from_row"
version = "0.1.0"
edition = "2021"
publish = false

[dependencies]
proc-macro2 = "1"
quote = "1"
rusqlite = "*"
syn = { version = "2", features = ["full"] }
