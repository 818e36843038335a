[package]
name = "rcon"
version = "0.1.0"
edition = "2021"

[dependencies]
bufstream = "0.1"
podio = "0.1"
