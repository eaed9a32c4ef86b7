[package]
name = "option_pricing_lib"
version = "0.1.0"
edition = "2021"
publish = false

[dependencies]
ndarray = "0.15"
ndarray-linalg = "0.16"
rand = "0.8"
rand_distr = "0.4"
smartcore = "0.2"
statrs = "0.16"
thiserror = "1"
