[package]
name = "pdrop_discovery"
version = "0.1.0"
edition = "2021"
publish = false

[dependencies]
bluster = "=0.2.0"
btleplug = "=0.13.5"
futures = "=0.3.34"
uuid = "=0.8.2"
