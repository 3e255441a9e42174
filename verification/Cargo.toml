[package]
name = "penguin_dataset"
version = "0.1.0"
edition = "2021"
publish = false

[dependencies]
polars = { version = "0.46", default-features = false, features = ["csv"] }
smartcore = "=0.2.1"
