[package]
name = "py-spy"
version = "0.1.0"
edition = "2021"
publish = false

[dependencies]
clap = "2"
console = "*"
goblin = "*"
indicatif = "*"
libc = "0.2"
proc-maps = "*"
read-process-memory = "0.1"
regex = "1"
