[package]
name = "lua_bridge"
version = "0.1.0"
edition = "2021"
publish = false

[dependencies]

[dev-dependencies]
rmp = "*"
rmp-serde = "*"
serde = "*"
serde_bytes = "*"
uuid = "0.8"
