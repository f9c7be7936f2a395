[package]
name = "rvm"
version = "0.1.0"
edition = "2021"
publish = false

[dependencies]
flate2 = "1"
octocrab = "0.18"
serde = { version = "1", features = ["derive"] }
serde_json = "1"
tar = "0.4"
tokio = { version = "1", features = ["macros", "rt-multi-thread"] }
