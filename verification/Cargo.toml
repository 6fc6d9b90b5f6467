[package]
name = "shell_core"
version = "0.1.0"
edition = "2021"
publish = false

[dependencies]
axum = "*"
dotenv = "*"
image = "*"
tao = "*"
tokio = { version = "*", features = ["rt-multi-thread", "net"] }
tower-http = { version = "*", features = ["fs", "cors"] }
wry = "*"
