[package]
name = "chip8_emu"
version = "0.1.0"
edition = "2021"
publish = false

[dependencies]
rand = "0.8"
sdl2 = "*"
clap = { version = "4", features = ["derive"] }
env_logger = "*"
log = "*"
