[package]
name = "xv_lidar"
version = "0.1.0"
edition = "2021"
publish = false

[dependencies]
chrono = { version = "0.4", default-features = false, features = ["clock"] }
clap = { version = "4", features = ["derive"] }
colored = "2"
serialport = { version = "4", default-features = false }
