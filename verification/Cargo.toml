[package]
name = "gpu_profiler"
version = "0.1.0"
edition = "2021"
publish = false

[dependencies]
puffin = "=0.18.1"
once_cell = "=1.21.4"
