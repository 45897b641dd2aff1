[package]
name = "bbsg"
version = "0.1.0"
edition = "2021"
publish = false

[dependencies]
strum = { version = "0.27", features = ["derive"] }
num = "0.4"
bincode = "2"
serde = { version = "1", features = ["derive"] }
askama = "0.14"
axum = "0.8"
tokio = { version = "1", features = ["macros", "rt-multi-thread"] }
