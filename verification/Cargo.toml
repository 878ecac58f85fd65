[package]
name = "soft_rdma"
version = "0.1.0"
edition = "2021"
publish = false

[dependencies]
bitvec = "=1.1.1"
ipnetwork = "=0.21.1"
libc = "=0.2.190"
memmap2 = "=0.9.11"
tun = "=0.8.14"
