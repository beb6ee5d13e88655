[package]
name = "game_hub"
version = "0.1.0"
edition = "2021"
publish = false

[dependencies]
serde = { version = "1", features = ["derive"] }
serde_json = "1"
strum = { version = "*", features = ["derive"] }
tokio = { version = "1", features = ["full"] }
tokio-util = { version = "*", features = ["codec"] }
futures-util = { version = "*", features = ["sink"] }
async-trait = "*"
axum = "*"
hyper = { version = "0.14", features = ["full"] }
tokio-tungstenite = "*"
crossterm = "*"
ratatui = "*"
color-eyre = "*"
wasm-bindgen = "*"
js-sys = "*"
