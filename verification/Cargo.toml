[package]
name = "forum_tags"
version = "0.1.0"
edition = "2021"
publish = false

[dependencies]
serde = { version = "1", features = ["derive"] }
serde-value = "0.7"
tracing = "0.1"
