[package]
name = "catppuccin_api"
version = "0.1.0"
edition = "2021"
publish = false

[dependencies]
axum = "0.7"
catppuccin = { version = "2", features = ["serde"] }
indoc = "2"
serde = { version = "1", features = ["derive"] }
serde_json = "1"
tokio = { version = "1", features = ["macros", "net", "rt-multi-thread"] }
