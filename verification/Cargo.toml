[package]
name = "random-access-disk"
version = "0.1.0"
edition = "2021"
publish = false

[dependencies]
async-std = "1"
async-trait = "0.1"
libc = "0.2"
mkdirp = "1"
random-access-storage = "5"
winapi = { version = "0.3", features = ["ioapiset", "minwindef", "winioctl"] }

[dev-dependencies]
tempdir = "0.3"
