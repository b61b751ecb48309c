[package]
name = "colourado-iter"
version = "0.2.0"
edition = "2021"

[dependencies]
rand = "0.8"
