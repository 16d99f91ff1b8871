[package]
name = "battle_engine"
version = "0.1.0"
edition = "2021"
publish = false

[dependencies]
time = "0.1"
piston2d-graphics = "*"
piston2d-opengl_graphics = "*"
