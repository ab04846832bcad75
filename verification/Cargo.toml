[package]
name = "rvemu_core"
version = "0.1.0"
edition = "2021"
publish = false

[dependencies]
memmap2 = "0.9"
gdbstub = "0.7"
gdbstub_arch = "0.3"
clap = { version = "4", features = ["derive"] }
