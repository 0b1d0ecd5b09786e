[package]
name = "typing_race"
version = "0.1.0"
edition = "2021"
publish = false

[dependencies]
iced = { version = "=0.12.1", default-features = false }
overworld = "=0.4.2"
