[package]
name = "event_dispatcher"
version = "0.1.0"
edition = "2021"
publish = false

[dependencies]
async-h1 = "2.3"
async-std = "1"
http-types = "2.12"
serde_json = "1"
