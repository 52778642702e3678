[package]
name = "branch_predictor"
version = "0.1.0"
edition = "2021"
publish = false

[dependencies]
indoc = "2"
rand = "0.8"
