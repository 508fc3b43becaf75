[package]
name = "scheduler-edf-rs"
version = "0.1.0"
edition = "2021"
publish = false

[dependencies]
cortex-m = "0.7"
cortex-m-rt = "0.7"
cortex-m-semihosting = "0.5"
defmt = "0.3"
defmt-rtt = "0.4"
embedded-hal = "0.2"
fugit = "0.3"
panic-halt = "0.2"
rp2040-hal = "0.8"
rp-pico = "0.7"
