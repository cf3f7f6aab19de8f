[package]
name = "music_catalog"
version = "0.1.0"
edition = "2021"
publish = false

[dependencies]
anyhow = "*"
audiotags = "*"
sqlx = { version = "*", default-features = false, features = ["runtime-tokio", "sqlite"] }
tokio = { version = "*", default-features = false, features = ["rt-multi-thread", "macros"] }
