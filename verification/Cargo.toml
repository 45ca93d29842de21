[package]
name = "probable_spork"
version = "0.1.0"
edition = "2021"
publish = false

[dependencies]
cgmath = "0.18"
env_logger = "0.10"
log = "0.4"
