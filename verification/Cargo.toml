[package]
name = "zettel"
version = "0.1.0"
edition = "2021"
publish = false

[dependencies]
bincode = "1"
chrono = { version = "0.4", features = ["serde"] }
indexmap = { version = "2", features = ["serde"] }
rayon = "1"
regex = "1"
serde = { version = "1", features = ["derive"] }
serde_yaml = "0.9"
serde_yml = "*"
walkdir = "2"
