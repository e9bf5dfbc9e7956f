[package]
name = "minesweeper"
version = "0.1.0"
edition = "2021"
publish = false

[dependencies]
chrono = "0.4"
num-integer = "0.1"
rand = "0.8"
dashmap = "4"
image = { version = "0.24", default-features = false, features = ["png"] }
lazy_static = "1"
rusttype = "0.9"
serde = { version = "1", features = ["derive"] }
serde_json = "1"
serenity = "0.10"
tiny-skia = "0.6"
tokio = { version = "1", features = ["macros", "rt-multi-thread"] }
