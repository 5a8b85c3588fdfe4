[package]
name = "neotop"
version = "0.1.0"
edition = "2021"
publish = false

[dependencies]
anyhow = "1"
better-panic = "*"
crossbeam-channel = "0.5"
crossterm = "0.25"
ctrlc = "3"
num-rational = "0.4"
platform-dirs = "*"
psutil = "*"
structopt = "0.3"
tui = "0.19"
