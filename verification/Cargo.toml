[package]
name = "multiwii_serial_protocol"
version = "0.1.0"
edition = "2021"
publish = false

[dependencies]
crc-any = "2"
futures = "0.3"
