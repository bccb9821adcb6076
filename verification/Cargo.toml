[package]
name = "webserver"
version = "0.1.0"
edition = "2021"
publish = false

[dependencies]
pasts = "=0.5.0"
smelling_salts = "=0.1.0"
