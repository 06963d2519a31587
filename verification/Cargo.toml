[package]
name = "shuttlings_cch23"
version = "0.1.0"
edition = "2021"
publish = false

[dependencies]
axum = { version = "*", features = ["multipart"] }
base64 = "*"
html-escape = "*"
image = { version = "*", default-features = false, features = ["png"] }
jiff = "*"
num = "*"
rustemon = "*"
serde = { version = "*", features = ["derive"] }
serde_json = "*"
sha2 = "*"
shuttle-axum = "*"
shuttle-runtime = "*"
thiserror = "*"
tokio = { version = "*", features = ["sync"] }
tower-cookies = "*"
tower-http = { version = "*", features = ["fs"] }
ulid = { version = "*", features = ["uuid"] }
uuid = { version = "*", features = ["serde"] }
