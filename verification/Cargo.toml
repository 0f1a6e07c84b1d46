[package]
name = "double-buffer"
version = "0.1.0"
edition = "2021"
publish = false

[dependencies]
parking_lot = "=0.12.5"
parking_lot_core = "=0.9.12"
