[package]
name = "nbody"
version = "0.1.0"
edition = "2021"
publish = false

[dependencies]
notan = { version = "=0.14.0", default-features = false, features = ["random"] }
notan_egui = "=0.14.0"
