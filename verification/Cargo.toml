[package]
name = "rtrace"
version = "0.1.0"
edition = "2021"
publish = false

[dependencies]
bvh = "=0.7.2"
glam = "=0.23.0"
ply-rs = "=0.1.3"
png = "=0.17.16"
rand = "=0.8.8"
rayon = "=1.12.0"
