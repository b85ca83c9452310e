[package]
name = "h264_reader"
version = "0.1.0"
edition = "2021"
publish = false

[dependencies]
bitreader = "0.3"
