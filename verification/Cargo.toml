[package]
name = "ogg-vag-transcoder"
version = "0.1.0"
edition = "2021"
publish = false

[dependencies]
lewton = "0.10"
indicatif = "0.17"
slog = "2"
slog-term = "2"
slog-async = "2"
