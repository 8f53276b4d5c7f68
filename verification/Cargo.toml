[package]
name = "policy_images"
version = "0.1.0"
edition = "2021"
publish = false

[dependencies]
blockfrost = "*"
clap = { version = "4", features = ["derive"] }
reqwest = { version = "0.11", features = ["blocking"] }
serde = { version = "1", features = ["derive"] }
serde_json = "1"
tokio = { version = "1", features = ["rt-multi-thread"] }
