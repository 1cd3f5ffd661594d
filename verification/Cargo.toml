[package]
name = "early_mm"
version = "0.1.0"
edition = "2021"
publish = false

[dependencies]
memory_addr = "0.3"
axerrno = "0.1"
bitflags = "2"
axallocator = "0.2"
axhal = "0.2.2-preview.6"
axtask = "0.2.2-preview.3"
