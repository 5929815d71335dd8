[package]
name = "tan"
version = "0.1.0"
edition = "2021"
publish = false

[dependencies]
comrak = "*"
libloading = "0.8"
rand = "0.8"
rust_decimal = "1"
serde_json = "1"
regex = "1"
chrono = "0.4"
uuid = { version = "1", features = ["v4"] }
png = "0.17"
