[package]
name = "rgb_wallet"
version = "0.1.0"
edition = "2021"
publish = false

[dependencies]
bp-std = "=0.12.0-rc.3"
bp-core = "=0.12.0"
commit_verify = "*"
amplify = "*"
