[package]
name = "shybot"
version = "0.1.0"
edition = "2021"
publish = false

[dependencies]
chrono = "=0.4.45"
csv = "=1.4.0"
rand = "=0.8.8"
regex = "=1.13.1"
discord = "=0.8.1"
clover = "=0.1.3"
