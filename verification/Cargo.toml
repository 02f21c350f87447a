[package]
name = "fitsrs"
version = "0.1.0"
edition = "2021"
publish = false

[dependencies]
nom = "7"
futures = "0.3"
async-trait = "0.1"
