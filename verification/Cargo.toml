[package]
name = "uefi-serial-chat"
version = "0.1.0"
edition = "2021"
publish = false

[dependencies]
anyhow = "=1.0.104"
log = "=0.4.35"
spin = "=0.12.3"
uart_16550 = "=0.5.0"
uefi = { version = "=0.37.0", features = ["alloc", "logger"] }
uefi-raw = "=0.14.0"
