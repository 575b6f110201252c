[package]
name = "postgread"
version = "0.1.0"
edition = "2021"
publish = false

[dependencies]
async-native-tls = "*"
async-std = "*"
async-trait = "*"
chrono = "*"
futures = "*"
native-tls = "*"
structopt = "*"
