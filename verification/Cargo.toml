[package]
name = "theta"
version = "0.1.0"
edition = "2021"
publish = false

[dependencies]
lazy_static = "=1.5.1"
spin = "=0.9.9"
uart_16550 = "=0.3.2"
volatile = "=0.2.7"
x86_64 = { version = "=0.15.5", default-features = false, features = ["instructions"] }
