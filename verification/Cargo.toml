[package]
name = "rp2040_emu"
version = "0.1.0"
edition = "2021"
publish = false

[dependencies]
bitflags = "*"
byteorder = "*"
libc = "*"
unicorn-engine = "*"
