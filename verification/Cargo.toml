[package]
name = "docstore"
version = "0.1.0"
edition = "2021"
publish = false

[dependencies]
rusqlite = { version = "*", features = ["bundled"] }
secular = "*"
serde_json = "*"
image = "*"
mime_guess = "*"
chrono = "*"
