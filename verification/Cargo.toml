[package]
name = "peach_lib"
version = "0.1.0"
edition = "2021"
publish = false

[dependencies]
fslock = "*"
rand = "*"
chrono = "*"
serde = { version = "*", features = ["derive"] }
serde_json = "*"
jsonrpc-client-core = "*"
jsonrpc-client-http = "*"
