[package]
name = "lightshow"
version = "0.1.0"
edition = "2021"
publish = false

[dependencies]
byteorder = "1"
hound = "3"
cpal = "0.11"
rppal = "0.11"
rustfft = "4"
num = "0.2"
num-complex = "0.2"
num-traits = "0.2"
anyhow = "1"
