[package]
name = "valor"
version = "0.1.0"
edition = "2021"
publish = false

[dependencies]
uuid = { version = "=1.27.0", features = ["v4"] }
serde = { version = "1", features = ["derive"] }
serde_json = "1"
path-tree = "*"
async-std = { version = "1", features = ["attributes"] }
async-h1 = "2"
http-types = "2"
femme = "2"
kv-log-macro = "1"
structopt = "0.3"
