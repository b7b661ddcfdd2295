[package]
name = "musolver"
version = "0.1.0"
edition = "2021"
publish = false

[dependencies]
arrayvec = "0.7"
rand = "0.8"
num-integer = "0.1"
itertools = "0.13"
serde = { version = "1", features = ["derive"] }
serde_json = "1"
rkyv = "0.8"
clap = { version = "4", features = ["derive"] }
chrono = "0.4"
indicatif = "0.17"
memmap2 = "0.9"
walkdir = "2"
rustc-hash = "2"
ndarray = "0.16"
thiserror = "2"
async-trait = "0.1"
