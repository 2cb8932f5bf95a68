[package]
name = "tendermint_light_client"
version = "0.1.0"
edition = "2021"
publish = false

[dependencies]
getrandom = "0.2"
serde = { version = "1", features = ["derive"] }
serde_json = "1"
subtle-encoding = "0.5"
uuid = "0.8"
