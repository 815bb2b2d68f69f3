[package]
name = "waveformrs"
version = "0.1.0"
edition = "2021"
publish = false

[dependencies]
ndarray = "0.15"
ndarray-linalg = "0.16"
num-complex = "0.4"
once_cell = "1"
