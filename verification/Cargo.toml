[package]
name = "misterdrillerterm"
version = "0.1.0"
edition = "2021"
publish = false

[dependencies]
rand = "*"
rand_chacha = "*"
uuid = { version = "1", features = ["v4"] }
serde = { version = "1", features = ["derive"] }
bincode = { version = "2", features = ["serde"] }
crossterm = "*"
ratatui = "*"
