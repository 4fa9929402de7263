[package]
name = "iex_book"
version = "0.1.0"
edition = "2021"
publish = false

[dependencies]
chrono = "0.4"
chrono-tz = "0.8"
clap = "2.33"
etherparse = "0.13"
log = "0.4"
pcap = "0.8"
pretty_env_logger = "0.4"
sled = "0.34"
