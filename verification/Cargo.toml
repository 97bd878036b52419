[package]
name = "invaders"
version = "0.1.0"
edition = "2021"
publish = false

[dependencies]
crossterm = "*"
rand = "*"
rusty_audio = "*"
