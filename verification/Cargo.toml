[package]
name = "apollo"
version = "0.1.0"
edition = "2021"
publish = false

[dependencies]
anyhow = "*"
colorize = "*"
directories = "*"
inquire = "*"
prettytable-rs = "*"
reqwest = { version = "*", default-features = false, features = ["blocking", "json"] }
rusqlite = { version = "*", features = ["bundled"] }
serde = { version = "*", features = ["derive"] }
url = "*"
