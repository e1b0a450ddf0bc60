[package]
name = "payout_snapshot"
version = "0.1.0"
edition = "2021"
publish = false

[dependencies]
serde_json = "1"
dotenv = "0.15"
reqwest = { version = "0.12", default-features = false, features = ["json"] }
tokio = { version = "1", features = ["macros", "rt-multi-thread"] }
tokio-postgres = "0.7"
