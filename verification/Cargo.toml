[package]
name = "contents_db"
version = "0.1.0"
edition = "2021"
publish = false

[dependencies]
flate2 = "*"
lexopt = "*"
rusqlite = { version = "*", features = ["bundled"] }
