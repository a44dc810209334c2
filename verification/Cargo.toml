[package]
name = "nodes_n_procs"
version = "0.1.0"
edition = "2021"
publish = false

[dependencies]
heapless = "0.8"
fixed = "1"
either = "1"
embedded-hal = "0.2.7"
embedded-hal-nb = "1"
nb = "1"
anyhow = { version = "1", default-features = false }
