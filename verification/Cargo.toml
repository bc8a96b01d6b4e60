[package]
name = "wsmux"
version = "0.1.0"
edition = "2021"
publish = false

[dependencies]
actix = "*"
actix-web = "*"
actix-web-actors = "*"
log = "*"
