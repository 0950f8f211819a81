[package]
name = "york_ball_game"
version = "0.1.0"
edition = "2021"
publish = false

[dependencies]
tokio = { version = "*", features = ["rt-multi-thread", "macros", "net", "sync"] }
tokio-tungstenite = "*"
futures-util = "*"

[dev-dependencies]
rmp = "*"
