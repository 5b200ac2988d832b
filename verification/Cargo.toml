[package]
name = "extrahop"
version = "0.1.0"
edition = "2021"
publish = false

[dependencies]
serde_json = "=1.0.151"
url = "=2.5.8"
reqwest = { version = "=0.13.5", default-features = false, features = ["form"] }
secstr = "=0.5.1"
