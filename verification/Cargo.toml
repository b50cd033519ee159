[package]
name = "pong"
version = "0.1.0"
edition = "2021"
publish = false

[dependencies]
cgmath = "0.16"
console = "0.6"
env_logger = "0.5"
rand = "0.5"
shrev = "1.0"
specs = "0.12"
specs-derive = "0.2"
winit = "0.18"
