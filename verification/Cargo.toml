[package]
name = "chip8"
version = "0.1.0"
edition = "2021"
publish = false

[dependencies]
rand = "0.4"
sdl2 = "0.31"
clap = "2"
log = "0.3"
fern = "0.4"
