[package]
name = "marsbot"
version = "0.1.0"
edition = "2021"
publish = false

[dependencies]
rusqlite = { version = "*", features = ["bundled"] }
sled = "*"
clap = { version = "*", features = ["derive"] }
home = "*"

[dev-dependencies]
tempfile = "*"
