[package]
name = "vim_picomap"
version = "0.1.0"
edition = "2021"
publish = false

[dependencies]
anyhow = "=1.0.104"
async-trait = "=0.1.92"
neovim-lib = "=0.6.1"
rmp = "=0.8.10"
signal-hook = "=0.3.18"
smol = "=2.0.2"
