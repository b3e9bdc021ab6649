[package]
name = "dataset_loader"
version = "0.1.0"
edition = "2021"
publish = false

[dependencies]
csv = "1"
linfa = "0.7"
ndarray = "0.15"
