[package]
name = "fan_quiz"
version = "0.1.0"
edition = "2021"
publish = false

[dependencies]
rand = "0.8"
serenity = "0.11"
tokio = { version = "1", features = ["macros", "rt-multi-thread"] }
async-trait = "0.1"
dotenv = "0.15"
serde = { version = "1", features = ["derive"] }
serde_json = "1"
