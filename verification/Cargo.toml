[package]
name = "circmark_parse"
version = "0.1.0"
edition = "2021"

[dependencies]
nom = "7"
svg = "0.13"
