[package]
name = "dive_computer"
version = "0.1.0"
edition = "2021"
publish = false

[dependencies]
arraystring = "=0.3.0"
fugit = "=0.3.9"
num = { version = "=0.4.3", default-features = false }
cortex-m = "=0.7.10"
cortex-m-rt = "=0.7.7"
defmt = "=1.2.0"
defmt-rtt = "=1.3.1"
panic-probe = { version = "=1.0.0", features = ["print-defmt"] }
embedded-graphics = "=0.7.1"
embedded-hal = "=1.0.0"
pimoroni-pico-explorer = "=0.8.0"
