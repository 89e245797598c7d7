[package]
name = "so2js_gc"
version = "0.1.0"
edition = "2021"
publish = false

[dependencies]
clap = { version = "4", features = ["derive"] }
parking_lot = "0.12"
allocator-api2 = "0.2"
