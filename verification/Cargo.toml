[package]
name = "rect_renderer"
version = "0.1.0"
edition = "2021"
publish = false

[dependencies]
alacritty_terminal = "=0.17.0"
alacritty_config = "=0.1.0"
alacritty_config_derive = "=0.2.0"
