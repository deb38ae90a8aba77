[package]
name = "chess_gif"
version = "0.1.0"
edition = "2021"
publish = false

[dependencies]
gift = "=0.13.0"
rusttype = "=0.9.3"
shakmaty = "=0.29.4"
serde = { version = "*", features = ["derive"] }
serde_with = "*"
arrayvec = { version = "*", features = ["serde"] }
axum = "*"
tokio = { version = "*", features = ["rt-multi-thread", "macros", "net"] }
clap = { version = "*", features = ["derive"] }
futures = "*"
listenfd = "*"
bytes = "*"
