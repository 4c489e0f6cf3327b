[package]
name = "drone_time"
version = "0.1.0"
edition = "2021"
publish = false

[dependencies]
atomicbox = "=0.4.0"
async-trait = "=0.1.92"
futures = { version = "=0.3.34", default-features = false, features = ["alloc", "async-await"] }
drone-core = "=0.14.3"
drone-cortexm = "=0.14.1"
