[package]
name = "loadcell"
version = "0.1.0"
edition = "2021"
publish = false

[dependencies]
cortex-m = "=0.7.10"
cortex-m-rt = "=0.7.7"
hx711 = "=0.6.0"
rtt-target = "=0.6.2"
stm32h7xx-hal = { version = "=0.16.0", features = ["stm32h743v"] }
