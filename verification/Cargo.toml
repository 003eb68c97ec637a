[package]
name = "ht16k33"
version = "0.1.0"
edition = "2021"
publish = false

[dependencies]
bitflags = "=2.13.2"
embedded-hal = "=1.0.0"
log = "0.4"
