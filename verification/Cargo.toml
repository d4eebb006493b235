[package]
name = "bf_cell_gen"
version = "0.1.0"
edition = "2021"
publish = false

[dependencies]
boolvec = "*"
clap = { version = "3", features = ["derive"] }
glium = "0.32"
glutin = "0.29"
