[package]
name = "robot_core"
version = "0.1.0"
edition = "2021"
publish = false

[dependencies]
reed-solomon = "*"
pid = "*"
