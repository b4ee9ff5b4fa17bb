[package]
name = "layuit"
version = "0.1.0"
edition = "2021"
publish = false

[dependencies]
indexmap = "2"
thunderdome = "0.6"
