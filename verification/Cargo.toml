[package]
name = "wordle"
version = "0.1.0"
edition = "2021"
publish = false

[dependencies]
bson = "2"
chrono = "0.4"
fern = "*"
log = "0.4"
mongodb = "2"
