[package]
name = "metronome"
version = "0.1.0"
edition = "2021"
publish = false

[dependencies]
clap = { version = "=4.6.7", features = ["derive"] }
rodio = { version = "=0.20.1", default-features = false, features = ["wav"] }

[dev-dependencies]
hound = "3"
