[package]
name = "arbitrage_detector"
version = "0.1.0"
edition = "2021"
publish = false

[dependencies]
tungstenite = "*"
url = "*"
serde = { version = "*", features = ["derive"] }
envy = "*"
dotenvy = "*"
tracing = "*"
tracing-subscriber = { version = "*", features = ["env-filter"] }
