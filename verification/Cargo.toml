[package]
name = "technus_timecode"
version = "0.1.0"
edition = "2021"
publish = false

[dependencies]
anyhow = "*"
midi-msg = "*"
midir = "*"
