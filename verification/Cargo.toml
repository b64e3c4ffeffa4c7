[package]
name = "gamelib"
version = "0.1.0"
edition = "2021"
publish = false

[dependencies]
glium = "=0.36.0"
image = "=0.25.10"
winit = "=0.30.13"
