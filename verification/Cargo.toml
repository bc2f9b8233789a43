[package]
name = "bitgraph"
version = "0.1.0"
edition = "2021"
publish = false

[dependencies]
serde_json = "1"
parking_lot = "0.12"
dirs = "4"
egui = "0.20"
eframe = { version = "0.20", default-features = false, features = ["glow"] }
tracing-subscriber = "0.3"
