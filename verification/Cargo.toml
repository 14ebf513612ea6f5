[package]
name = "axvirtio_blk"
version = "0.1.0"
edition = "2021"
publish = false

[dependencies]
axaddrspace = "0.3"
axdevice_base = "0.2.2"
axerrno = "0.2"
axstd = { version = "=0.3.0-preview.3", features = ["alloc", "fs"] }
axvmconfig = "0.2.2"
log = "0.4"
memory_addr = "0.4"
spin = "0.9"
