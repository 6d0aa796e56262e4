[package]
name = "hastur"
version = "0.1.0"
edition = "2021"
publish = false

[dependencies]
async-metronome = "*"
async-std = "1"
atomic_refcell = "*"
cfg-if = "1"
crossbeam = "0.8"
dashmap = "5"
futures = "0.3"
lazy_static = "1"
proc-macro2 = "1"
quote = "1"
syn = { version = "1", features = ["full"] }
tracing = "0.1"
tracing-futures = "0.2"
