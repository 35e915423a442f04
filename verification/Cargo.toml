[package]
name = "block_reverb"
version = "0.1.0"
edition = "2021"
publish = false

[dependencies]
realfft = "=3.5.0"
ringbuf = "=0.5.2"
rubato = "=0.15.0"
