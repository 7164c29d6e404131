[package]
name = "tokio-resource-pool"
version = "0.1.0"
edition = "2021"
publish = false

[dependencies]
crossbeam-queue = "0.1"
futures = "0.3"
log = "0.4"
tokio-sync = "=0.2.0-alpha.6"
