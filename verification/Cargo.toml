[package]
name = "crispy_bootloader"
version = "0.1.0"
edition = "2021"
publish = false

[dependencies]
crc = "3"
heapless = "0.8"
serde = { version = "1", default-features = false, features = ["derive"] }
postcard = { version = "1", default-features = false, features = ["alloc"] }
anyhow = "1"
clap = { version = "4", features = ["derive"] }
indicatif = "0.17"
serialport = { version = "4", default-features = false }
cortex-m = "0.7"
cortex-m-rt = "0.7"
embedded-hal = "1"
rp2040-hal = "0.10"
rp2040-boot2 = "0.3"
usb-device = "0.3"
usbd-serial = "0.2"
defmt = "0.3"
defmt-rtt = "0.4"
panic-probe = "0.3"
