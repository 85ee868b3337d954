[package]
name = "duration_fmt"
version = "0.1.0"
edition = "2021"
publish = false

[dependencies]
chrono = "=0.4.45"
float_duration = { version = "=0.3.3", default-features = false }
