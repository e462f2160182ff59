[package]
name = "spur"
version = "0.1.0"
edition = "2021"
publish = false

[dependencies]
httparse = "=1.10.1"
inlinable_string = "=0.1.15"
mio = "=0.5.1"
ctrlc = "=3.5.2"
time = "=0.1.45"
