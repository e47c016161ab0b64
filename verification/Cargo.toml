[package]
name = "sound_engine"
version = "0.1.0"
edition = "2021"
publish = false

[dependencies]
ash = "0.38"
bytemuck = "1"
cpal = "0.15"
glam = "0.29"
hound = "3.5"
