[package]
name = "frappe"
version = "0.4.0"
edition = "2021"
publish = false

[dependencies]
either = "1"
maybe-owned = "0.3"
parking_lot = "0.12"
crossbeam-utils = "0.8"
