[package]
name = "shm_rings"
version = "0.2.0"
edition = "2021"
publish = false

[dependencies]
libc = "0.2"
loom = "0.7"
memmap2 = "0.9"
thiserror = "2"
zerocopy = "0.8"

[dev-dependencies]
proptest = { version = "1", default-features = false, features = ["std"] }
