[package]
name = "minewars"
version = "0.1.0"
edition = "2021"
publish = false

[dependencies]
seahash = "=4.1.0"
lz4_flex = { version = "=0.11.6", default-features = false, features = ["std", "safe-decode", "safe-encode"] }
morton-encoding = "=2.0.1"
rand = "0.8"
