[package]
name = "pico_plot"
version = "0.1.0"
edition = "2021"
publish = false

[dependencies]
confy = "*"
plotters = "*"
serde = { version = "*", features = ["derive"] }
serialport = { version = "*", default-features = false }
