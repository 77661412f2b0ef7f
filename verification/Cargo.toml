[package]
name = "midi_sniffer"
version = "0.1.0"
edition = "2021"
publish = false

[dependencies]
anyhow = "1"
crossbeam-channel = "0.5"
env_logger = "0.9"
log = "0.4"
midi-msg = "0.4"
midir = "0.8"
thiserror = "1"
