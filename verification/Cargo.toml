[package]
name = "storage_stat"
version = "0.1.0"
edition = "2021"
publish = false

[dependencies]
bson = "2"
mongodb = { version = "3", features = ["sync"] }
