[package]
name = "simple_sip_rs"
version = "0.1.0"
edition = "2021"
publish = false

[dependencies]
md-5 = "*"
uuid = { version = "*", features = ["v4"] }
rand = "*"
tokio = { version = "*", features = ["full"] }
anyhow = "*"
fon = "*"
