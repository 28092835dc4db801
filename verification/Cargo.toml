[package]
name = "fastobo_owl"
version = "0.1.0"
edition = "2021"
publish = false

[dependencies]
curie = "*"
fastobo = "*"
horned-owl = "*"
ureq = "*"
