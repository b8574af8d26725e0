[package]
name = "triangle_synth"
version = "0.1.0"
edition = "2021"
publish = false

[dependencies]
hound = "=3.5.1"
vst = "=0.4.0"
