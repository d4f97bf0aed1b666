[package]
name = "dispo_rows"
version = "0.1.0"
edition = "2021"
publish = false

[dependencies]
calamine = "=0.36.1"
chrono = { version = "=0.4.45", features = ["serde"] }
serde = { version = "*", features = ["derive"] }
serde_json = "*"
