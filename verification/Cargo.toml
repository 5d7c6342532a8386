[package]
name = "riscv64_emulator"
version = "0.1.0"
edition = "2021"
publish = false

[dependencies]
byteorder = "1"
mmap-rs = "*"
log = "0.4"
env_logger = "*"
