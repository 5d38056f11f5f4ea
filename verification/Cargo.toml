[package]
name = "taser_em"
version = "0.1.0"
edition = "2021"
publish = false

[dependencies]
anyhow = "1"
glamx = "=0.3.1"
khal = "=0.4.0"
parry3d = "=0.31.1"
pollster = "=1.0.1"
