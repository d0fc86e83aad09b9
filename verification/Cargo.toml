[package]
name = "vibeos"
version = "0.1.0"
edition = "2021"
publish = false

[dependencies]
log = "=0.4.35"
spin = "=0.9.9"
uart_16550 = "=0.3.2"
bootloader_api = "=0.11.17"
