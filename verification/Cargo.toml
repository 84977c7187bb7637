[package]
name = "embedded_cli"
version = "0.1.0"
edition = "2021"
publish = false

[dependencies]
heapless = "0.8"
rtic = { version = "*", features = ["thumbv7-backend"] }
rtic-monotonics = { version = "*", features = ["cortex-m-systick"] }
rtt-target = "*"
panic-rtt-target = "*"
stm32f4xx-hal = { version = "*", features = ["stm32f401"] }
