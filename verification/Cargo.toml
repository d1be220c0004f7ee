[package]
name = "bear_tv"
version = "0.1.0"
edition = "2021"
publish = false

[dependencies]
bytes = "1"
quinn = "0.10"
regex = "1"
rustls = "0.21"
rustls-pemfile = "1"
tokio = { version = "1", features = ["full"] }
