[package]
name = "pong_core"
version = "0.1.0"
edition = "2021"
publish = false

[dependencies]
cgmath = "0.15"
collision = "0.11"
rand = "0.4"
serde = "1"
serde_derive = "1"
shrev = "0.2"
time = "0.1"
