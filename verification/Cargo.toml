[package]
name = "netd"
version = "0.1.0"
edition = "2021"
publish = false

[dependencies]
clap = { version = "4", features = ["derive"] }
dialoguer = "0.11"
futures = "0.3"
pnet = "*"
rand = "0.8"
serde = { version = "1", features = ["derive"] }
serde-inline-default = "*"
surge-ping = "0.8"
tokio = { version = "1", features = ["full"] }
toml = "0.8"
