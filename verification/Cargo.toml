[package]
name = "asi_rs"
version = "0.1.0"
edition = "2021"
publish = false

[dependencies]
rfitsio = "*"
convert_case = "*"
uuid = { version = "*", features = ["v4"] }
rand = "0.8"
dlopen = "*"
num = "*"
log = "*"
env_logger = "*"
