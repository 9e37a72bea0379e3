[package]
name = "todo_list"
version = "0.1.0"
edition = "2021"
publish = false

[dependencies]
chrono = { version = "=0.4.45", features = ["serde"] }
serde = { version = "=1.0.229", features = ["derive"] }
serde_json = "=1.0.151"
clap = "=4.6.7"
crossterm = "=0.28.1"
prettytable-rs = "=0.10.0"
