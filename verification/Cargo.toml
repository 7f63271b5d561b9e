[package]
name = "motor_rust"
version = "0.1.0"
edition = "2021"
publish = false

[dependencies]
evdev = "=0.13.2"
pyo3 = "=0.30.1"
