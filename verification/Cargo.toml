[package]
name = "sotpal"
version = "0.1.0"
edition = "2021"
publish = false

[dependencies]
indexmap = "1"
rand = "0.8"
telegram-bot = "0.8"
tokio = { version = "0.2", features = ["macros", "rt-threaded"] }
futures = "0.3"
