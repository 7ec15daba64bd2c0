[package]
name = "fps_server_core"
version = "0.1.0"
edition = "2021"
publish = false

[dependencies]
rand = "*"
renet = "*"
