[package]
name = "arino"
version = "0.1.0"
edition = "2021"
publish = false

[dependencies]
prettytable-rs = { version = "0.10", default-features = false }
rusqlite = { version = "*", features = ["bundled"] }
