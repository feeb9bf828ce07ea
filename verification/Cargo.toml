[package]
name = "stampede"
version = "0.1.0"
edition = "2021"
publish = false

[dependencies]
rand = "0.7"
wgpu = "0.4"
winit = "0.20"
zerocopy = "0.3"
failure = "0.1"
