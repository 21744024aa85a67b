[package]
name = "packnet"
version = "0.1.0"
edition = "2021"
publish = false

[dependencies]
renet = "*"
renet_netcode = "*"
