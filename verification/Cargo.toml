[package]
name = "nwin"
version = "0.1.0"
edition = "2021"
publish = false

[dependencies]
home = "=0.5.12"
neovim-lib = "=0.6.1"
rmp = "=0.8.10"
sdl2 = { version = "=0.38.0", features = ["ttf", "unsafe_textures"] }
swayipc = "=4.0.0"
