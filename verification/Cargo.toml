[package]
name = "trowel"
version = "0.1.0"
edition = "2021"
publish = false

[dependencies]
cortex-m = "0.7"
defmt-rtt = "0.4"
embedded-alloc = "0.5"
embedded-graphics = "0.7"
embedded-hal = "0.2"
embedded-sdmmc = "0.4"
embedded-time = "0.12"
fugit = "0.3"
panic-probe = "0.3"
rp2040-boot2 = "0.2"
rp2040-hal = { version = "0.8", features = ["rtic-monotonic"] }
rtic-monotonic = "1.0"
shared-bus = "0.2"
st7735-lcd = "0.8"
