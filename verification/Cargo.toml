[package]
name = "rv32im_svm"
version = "0.1.0"
edition = "2021"
publish = false

[dependencies]
thiserror = "1"
env_logger = "0.11"
