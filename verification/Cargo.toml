[package]
name = "train_status"
version = "0.1.0"
edition = "2021"
publish = false

[dependencies]
amtrak-api = "*"
chrono = "0.4"
tokio = { version = "1", features = ["macros", "rt-multi-thread"] }
