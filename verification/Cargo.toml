[package]
name = "mars_rover_technical_challenge"
version = "0.1.0"
edition = "2021"
publish = false

[dependencies]
color-eyre = "0.6"
thiserror = "1"
