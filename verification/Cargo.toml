[package]
name = "emo_audio"
version = "0.1.0"
edition = "2021"
publish = false

[dependencies]
ndarray = "0.13"
num-traits = "0.2"
rustfft = "3.0"

[dev-dependencies]
float-cmp = "0.6"
