[package]
name = "quazal"
version = "0.1.0"
edition = "2021"
publish = false

[dependencies]
miniz_oxide = "=0.8.9"
md-5 = "=0.10.6"
hmac = "=0.12.1"
sodiumoxide = "=0.2.7"
rand = "=0.8.8"
serde = { version = "=1.0.229", features = ["derive"] }
serde_json = "=1.0.154"
toml = "=0.8.23"
goblin = "*"
pcap-parser = "*"
etherparse = "*"
