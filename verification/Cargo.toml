[package]
name = "netships"
version = "0.1.0"
edition = "2021"
publish = false

[dependencies]
capnp = "*"
clock_ticks = "*"
glium = "*"
mio = { version = "*", features = ["net", "os-poll"] }
nalgebra = "*"
rustc-serialize = "*"
