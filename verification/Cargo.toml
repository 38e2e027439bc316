[package]
name = "chaotic_ball"
version = "0.1.0"
edition = "2021"
publish = false

[dependencies]
macroquad = "0.4"
rayon = "1"
ringbuf = "0.4"
