[package]
name = "planet_sketch"
version = "0.1.0"
edition = "2021"
publish = false

[dependencies]
rand = "=0.8.8"
simple-simplex = "*"
macroquad = "=0.4.16"
