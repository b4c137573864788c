[package]
name = "arena"
version = "0.1.0"
edition = "2021"
publish = false

[dependencies]
battlesnake-game-types = "*"
rand = "0.8"
colored = "2"
url = "2"
sha2 = "0.10"
hex = "0.4"
chrono = { version = "0.4", default-features = false, features = ["std", "clock"] }
urlencoding = "2"
uuid = { version = "1", features = ["v4"] }
serde = { version = "1", features = ["derive"] }
serde_json = "1"
is-terminal = "0.4"
