[package]
name = "mqtt_proto"
version = "0.1.0"
edition = "2021"
publish = false

[dependencies]
simdutf8 = "0.1"
futures-lite = "2"
